//! JSON trees as `serde_json` holds them.

use vstd::prelude::*;
use vstd::string::*;
use vstd::utf8::*;

verus! {

/// A JSON value of `serde_json`.
#[verifier::external_type_specification]
#[verifier::external_body]
pub struct ExValue(serde_json::Value);

/// Why `serde_json` could not read or write JSON.
#[verifier::external_type_specification]
#[verifier::external_body]
pub struct ExJsonError(serde_json::Error);

/// A JSON value taken apart as far as its objects go; a value that is neither null nor
/// an object stands for itself.
pub enum JsonTree {
    Null,
    Object(Map<Seq<char>, JsonTree>),
    Other(serde_json::Value),
}

/// What a JSON value holds.
pub uninterp spec fn json_tree(v: serde_json::Value) -> JsonTree;

/// The value that `serde_json::from_str` reads from a text, if the text is JSON.
pub uninterp spec fn json_parsed(text: Seq<char>) -> Option<JsonTree>;

/// The text of the error that `serde_json::from_str` gives for a text that is not JSON.
pub uninterp spec fn json_fault(text: Seq<char>) -> Seq<char>;

/// The text that `serde_json` writes for a value.
pub uninterp spec fn json_text(t: JsonTree) -> Seq<char>;

/// The value that `serde_json::Value::pointer` finds in a value by a JSON pointer.
pub uninterp spec fn json_at(t: JsonTree, pointer: Seq<char>) -> Option<JsonTree>;

/// The value that `serde_json::Value` is made into from a string.
pub uninterp spec fn json_of_text(s: Seq<char>) -> JsonTree;

/// The value that `serde_json::Value` is made into from an unsigned number.
pub uninterp spec fn json_of_number(n: u64) -> JsonTree;

/// The value that `serde_json::Value` is made into from a truth value.
pub uninterp spec fn json_of_bool(b: bool) -> JsonTree;

/// The value that `serde_json::Value` is made into from a list of values.
pub uninterp spec fn json_of_list(items: Seq<JsonTree>) -> JsonTree;

/// `serde_json::Value`'s `From<String>` makes a string value, which depends on the text
/// alone; it is neither null nor an object.
#[verifier::external_body]
pub(crate) fn json_string(s: String) -> (v: serde_json::Value)
    ensures
        json_tree(v) == json_of_text(s@),
        json_tree(v) is Other,
{
    serde_json::Value::from(s)
}

/// `serde_json::Value`'s `From<u64>` makes a number value, which depends on the number
/// alone; it is neither null nor an object.
#[verifier::external_body]
pub(crate) fn json_number(n: u64) -> (v: serde_json::Value)
    ensures
        json_tree(v) == json_of_number(n),
        json_tree(v) is Other,
{
    serde_json::Value::from(n)
}

/// `serde_json::Value`'s `From<bool>` makes a truth value, which depends on the argument
/// alone; it is neither null nor an object.
#[verifier::external_body]
pub(crate) fn json_bool(b: bool) -> (v: serde_json::Value)
    ensures
        json_tree(v) == json_of_bool(b),
        json_tree(v) is Other,
{
    serde_json::Value::from(b)
}

/// `serde_json::Value`'s `From<Vec<Value>>` makes an array of the values, which depends
/// on what they hold and their order alone; it is neither null nor an object.
#[verifier::external_body]
pub(crate) fn json_list(items: Vec<serde_json::Value>) -> (v: serde_json::Value)
    ensures
        json_tree(v) == json_of_list(trees(items@)),
        json_tree(v) is Other,
{
    serde_json::Value::from(items)
}

/// What each of several values holds.
pub open spec fn trees(items: Seq<serde_json::Value>) -> Seq<JsonTree> {
    Seq::new(items.len(), |i: int| json_tree(items[i]))
}

/// `serde_json::from_str` reads a value from a text, or fails on a text that is not JSON;
/// which of the two, and the value, depend on the text alone.
#[verifier::external_body]
pub(crate) fn json_parse(text: &str) -> (r: Result<serde_json::Value, serde_json::Error>)
    ensures
        match r {
            Ok(v) => json_parsed(text@) == Some(json_tree(v)),
            Err(_) => json_parsed(text@) is None,
        },
{
    serde_json::from_str(text)
}

/// `serde_json::from_str` reads a value from a text, as in `json_parse`; where it fails, the
/// error is given as the text that its `to_string` writes, which depends on the text that was
/// read alone.
#[verifier::external_body]
pub(crate) fn json_read(text: &str) -> (r: Result<serde_json::Value, String>)
    ensures
        match r {
            Ok(v) => json_parsed(text@) == Some(json_tree(v)),
            Err(why) => json_parsed(text@) is None && why@ == json_fault(text@),
        },
{
    serde_json::from_str(text).map_err(|e: serde_json::Error| e.to_string())
}

/// `serde_json::Value`'s `to_string` writes the value in its compact form.
#[verifier::external_body]
pub(crate) fn json_to_string(v: &serde_json::Value) -> (s: String)
    ensures
        s@ == json_text(json_tree(*v)),
{
    v.to_string()
}

/// `serde_json::to_string` writes the value in its compact form. It cannot fail on a
/// value: all keys are strings, and a string takes every character.
#[verifier::external_body]
pub(crate) fn json_write(v: &serde_json::Value) -> (r: Result<String, serde_json::Error>)
    ensures
        r is Ok,
        r->Ok_0@ == json_text(json_tree(*v)),
{
    serde_json::to_string(v)
}

/// `serde_json::Value::Null` is the null value.
#[verifier::external_body]
pub(crate) fn json_null() -> (v: serde_json::Value)
    ensures
        json_tree(v) is Null,
{
    serde_json::Value::Null
}

/// `serde_json::to_vec` writes the value in its compact form as UTF-8. It cannot fail on
/// a value: all keys are strings, and a vector takes every byte.
#[verifier::external_body]
pub(crate) fn json_to_vec(v: &serde_json::Value) -> (r: Result<Vec<u8>, serde_json::Error>)
    ensures
        r is Ok,
        r->Ok_0@ == encode_utf8(json_text(json_tree(*v))),
{
    serde_json::to_vec(v)
}

/// A name of a JSON pointer that stands for itself: no slash ends it and nothing in it is
/// escaped.
pub open spec fn plain_name(name: Seq<char>) -> bool {
    forall|i: int| 0 <= i < name.len() ==> #[trigger] name[i] != '/' && name[i] != '~'
}

/// The JSON pointer (RFC 6901) that goes by the names in turn: each after a slash.
pub open spec fn pointer_by(names: Seq<Seq<char>>) -> Seq<char>
    decreases names.len(),
{
    if names.len() == 0 {
        Seq::empty()
    } else {
        seq!['/'] + names[0] + pointer_by(names.skip(1))
    }
}

/// Whether going by the names in turn leads from a value to `found`: from an object each
/// name leads to the member with it. Where the way comes to a value that is neither null
/// nor an object, it is left open.
pub open spec fn leads_to(t: JsonTree, names: Seq<Seq<char>>, found: Option<JsonTree>) -> bool
    decreases names.len(),
{
    if names.len() == 0 {
        found == Some(t)
    } else {
        match t {
            JsonTree::Null => found is None,
            JsonTree::Object(m) => if m.contains_key(names[0]) {
                leads_to(m[names[0]], names.skip(1), found)
            } else {
                found is None
            },
            JsonTree::Other(_) => true,
        }
    }
}

/// What a value that was found holds.
pub open spec fn tree_found(r: Option<&serde_json::Value>) -> Option<JsonTree> {
    match r {
        Some(v) => Some(json_tree(*v)),
        None => None,
    }
}

/// `serde_json::Value::pointer` finds the value at a JSON pointer, if there is one; what
/// it finds depends on the value and the pointer alone. A pointer by plain names leads
/// through objects from member to member.
#[verifier::external_body]
pub(crate) fn json_pointer<'a>(v: &'a serde_json::Value, pointer: &str) -> (r: Option<
    &'a serde_json::Value,
>)
    ensures
        tree_found(r) == json_at(json_tree(*v), pointer@),
        forall|names: Seq<Seq<char>>|
            (forall|i: int| 0 <= i < names.len() ==> plain_name(#[trigger] names[i])) && pointer@
                == #[trigger] pointer_by(names) ==> leads_to(
                json_tree(*v),
                names,
                tree_found(r),
            ),
{
    v.pointer(pointer)
}

/// `serde_json::Value`'s `clone` gives a value that holds the same.
#[verifier::external_body]
pub(crate) fn json_clone(v: &serde_json::Value) -> (r: serde_json::Value)
    ensures
        json_tree(r) == json_tree(*v),
{
    v.clone()
}

/// `serde_json::Value::is_null` tells null from every other value.
#[verifier::external_body]
pub(crate) fn json_is_null(v: &serde_json::Value) -> (b: bool)
    ensures
        b == (json_tree(*v) is Null),
{
    v.is_null()
}

/// `serde_json::Map::new` makes an object without members.
#[verifier::external_body]
pub(crate) fn json_empty_object() -> (v: serde_json::Value)
    ensures
        json_tree(v) == JsonTree::Object(Map::empty()),
{
    serde_json::Value::Object(serde_json::Map::new())
}

/// `serde_json::Map::keys` gives the names of an object's members, each once. A value
/// that is not an object has none to give.
#[verifier::external_body]
pub(crate) fn json_keys(v: &serde_json::Value) -> (r: Option<Vec<String>>)
    ensures
        match r {
            Some(keys) => {
                &&& json_tree(*v) is Object
                &&& forall|i: int, j: int|
                    0 <= i < j < keys@.len() ==> #[trigger] keys@[i]@ != #[trigger] keys@[j]@
                &&& forall|i: int|
                    0 <= i < keys@.len() ==> json_tree(*v)->Object_0.contains_key(
                        #[trigger] keys@[i]@,
                    )
                &&& forall|k: Seq<char>| #[trigger]
                    json_tree(*v)->Object_0.contains_key(k) ==> exists|i: int|
                        0 <= i < keys@.len() && #[trigger] keys@[i]@ == k
            },
            None => !(json_tree(*v) is Object),
        },
{
    v.as_object().map(|m| m.keys().cloned().collect())
}

/// `serde_json::Value::get` gives the member of an object with a name.
#[verifier::external_body]
pub(crate) fn json_get<'a>(v: &'a serde_json::Value, key: &str) -> (r: Option<
    &'a serde_json::Value,
>)
    ensures
        match (r, json_tree(*v)) {
            (Some(x), JsonTree::Object(m)) => m.contains_key(key@) && m[key@] == json_tree(*x),
            (None, JsonTree::Object(m)) => !m.contains_key(key@),
            (r, _) => r is None,
        },
{
    v.get(key)
}

/// `serde_json::Map::remove` takes the member with a name out of an object.
#[verifier::external_body]
pub(crate) fn json_remove(v: &mut serde_json::Value, key: &str) -> (r: Option<serde_json::Value>)
    requires
        json_tree(*old(v)) is Object,
    ensures
        json_tree(*final(v)) == JsonTree::Object(json_tree(*old(v))->Object_0.remove(key@)),
        match r {
            Some(x) => json_tree(*old(v))->Object_0.contains_key(key@) && json_tree(x)
                == json_tree(*old(v))->Object_0[key@],
            None => !json_tree(*old(v))->Object_0.contains_key(key@),
        },
{
    v.as_object_mut().and_then(|m| m.remove(key))
}

/// `serde_json::Map::insert` puts a member with a name into an object, in place of one
/// with that name.
#[verifier::external_body]
pub(crate) fn json_insert(v: &mut serde_json::Value, key: String, member: serde_json::Value)
    requires
        json_tree(*old(v)) is Object,
    ensures
        json_tree(*final(v)) == JsonTree::Object(
            json_tree(*old(v))->Object_0.insert(key@, json_tree(member)),
        ),
{
    v.as_object_mut().map(|m| m.insert(key, member));
}

/// The members of an object; none for another value.
pub open spec fn members(t: JsonTree) -> Map<Seq<char>, JsonTree> {
    match t {
        JsonTree::Object(m) => m,
        _ => Map::empty(),
    }
}

/// The member of an object with a name; null if there is none.
pub open spec fn member_or_null(t: JsonTree, key: Seq<char>) -> JsonTree {
    if members(t).contains_key(key) {
        members(t)[key]
    } else {
        JsonTree::Null
    }
}

/// A merge patch (RFC 7396) applied to a value. A patch that is not an object replaces
/// the value. An object changes the members that it names: null removes one, anything
/// else is merged into it. A value that is not an object is patched as an empty one.
pub open spec fn merged(target: JsonTree, patch: JsonTree) -> JsonTree
    decreases patch,
{
    match patch {
        JsonTree::Object(p) => JsonTree::Object(
            Map::new(
                |k: Seq<char>|
                    if p.contains_key(k) {
                        !(p[k] is Null)
                    } else {
                        members(target).contains_key(k)
                    },
                |k: Seq<char>|
                    if p.contains_key(k) {
                        merged(member_or_null(target, k), p[k])
                    } else {
                        members(target)[k]
                    },
            ),
        ),
        _ => patch,
    }
}

/// What an optional value holds; null if it is absent.
pub open spec fn tree_or_null(v: Option<serde_json::Value>) -> JsonTree {
    match v {
        Some(x) => json_tree(x),
        None => JsonTree::Null,
    }
}

/// Applies a merge patch to a value; `None` stands for one that is absent.
pub fn merge_patch(target: Option<serde_json::Value>, patch: &serde_json::Value) -> (r:
    serde_json::Value)
    ensures
        json_tree(r) == merged(tree_or_null(target), json_tree(*patch)),
    decreases json_tree(*patch),
{
    let keys: Vec<String> = match json_keys(patch) {
        Some(keys) => keys,
        None => {
            return json_clone(patch);
        },
    };
    let ghost base = tree_or_null(target);
    let ghost p = json_tree(*patch)->Object_0;
    let mut out: serde_json::Value = match target {
        Some(v) => {
            if json_keys(&v).is_some() {
                v
            } else {
                json_empty_object()
            }
        },
        None => json_empty_object(),
    };
    assert(members(json_tree(out)) =~= members(base));
    let mut i: usize = 0;
    while i < keys.len()
        invariant
            i <= keys@.len(),
            json_tree(*patch) == JsonTree::Object(p),
            json_tree(out) is Object,
            forall|a: int, b: int|
                0 <= a < b < keys@.len() ==> #[trigger] keys@[a]@ != #[trigger] keys@[b]@,
            forall|a: int| 0 <= a < keys@.len() ==> p.contains_key(#[trigger] keys@[a]@),
            forall|k: Seq<char>|
                #![trigger members(json_tree(out)).contains_key(k)]
                ({
                    let done = exists|a: int| 0 <= a < i && #[trigger] keys@[a]@ == k;
                    if done {
                        &&& members(json_tree(out)).contains_key(k) == !(p[k] is Null)
                        &&& !(p[k] is Null) ==> members(json_tree(out))[k] == merged(
                            member_or_null(base, k),
                            p[k],
                        )
                    } else {
                        &&& members(json_tree(out)).contains_key(k) == members(base).contains_key(k)
                        &&& members(base).contains_key(k) ==> members(json_tree(out))[k]
                            == members(base)[k]
                    }
                }),
        decreases keys@.len() - i,
    {
        let ghost before = members(json_tree(out));
        let key: &String = &keys[i];
        let ghost kv = key@;
        assert(before.contains_key(kv) == members(base).contains_key(kv));
        let taken = json_remove(&mut out, key.as_str());
        match json_get(patch, key.as_str()) {
            Some(pv) => {
                if !json_is_null(pv) {
                    assert(tree_or_null(taken) == member_or_null(base, kv));
                    let m = merge_patch(taken, pv);
                    json_insert(&mut out, key.clone(), m);
                }
            },
            None => {},
        }
        proof {
            let after = members(json_tree(out));
            assert(p.contains_key(kv));
            assert forall|k: Seq<char>| k != kv implies after.contains_key(k)
                == before.contains_key(k) && (after.contains_key(k) ==> after[k] == before[k]) by {}
            assert forall|k: Seq<char>|
                #![trigger members(json_tree(out)).contains_key(k)]
                ({
                    let done = exists|a: int| 0 <= a < i + 1 && #[trigger] keys@[a]@ == k;
                    if done {
                        &&& members(json_tree(out)).contains_key(k) == !(p[k] is Null)
                        &&& !(p[k] is Null) ==> members(json_tree(out))[k] == merged(
                            member_or_null(base, k),
                            p[k],
                        )
                    } else {
                        &&& members(json_tree(out)).contains_key(k) == members(base).contains_key(k)
                        &&& members(base).contains_key(k) ==> members(json_tree(out))[k]
                            == members(base)[k]
                    }
                }) by {
                assert(before.contains_key(k) || !before.contains_key(k));
                if k == kv {
                    assert(keys@[i as int]@ == k);
                } else {
                    if exists|a: int| 0 <= a < i + 1 && #[trigger] keys@[a]@ == k {
                        let a = choose|a: int| 0 <= a < i + 1 && #[trigger] keys@[a]@ == k;
                        assert(a < i);
                    }
                }
            }
        }
        i = i + 1;
    }
    proof {
        let result = members(merged(base, json_tree(*patch)));
        let got = members(json_tree(out));
        assert forall|k: Seq<char>| got.contains_key(k) == result.contains_key(k) by {
            if p.contains_key(k) {
                let a = choose|a: int| 0 <= a < keys@.len() && #[trigger] keys@[a]@ == k;
                assert(keys@[a]@ == k);
            }
        }
        assert forall|k: Seq<char>| got.contains_key(k) implies got[k] == result[k] by {
            if p.contains_key(k) {
                let a = choose|a: int| 0 <= a < keys@.len() && #[trigger] keys@[a]@ == k;
                assert(keys@[a]@ == k);
            }
        }
        assert(got =~= result);
    }
    out
}

/// A patch that is not an object replaces the value whatever it was.
pub proof fn scalar_patch_replaces(target: JsonTree, patch: JsonTree)
    requires
        !(patch is Object),
    ensures
        merged(target, patch) == patch,
{
}

/// An object patch keeps the members that it does not name, removes those that it names
/// with null, and gives every other one that it names.
pub proof fn object_patch_members(target: JsonTree, patch: JsonTree, key: Seq<char>)
    requires
        patch is Object,
    ensures
        merged(target, patch) is Object,
        !members(patch).contains_key(key) ==> members(merged(target, patch)).contains_key(key)
            == members(target).contains_key(key) && (members(target).contains_key(key)
            ==> members(merged(target, patch))[key] == members(target)[key]),
        members(patch).contains_key(key) && members(patch)[key] is Null ==> !members(
            merged(target, patch),
        ).contains_key(key),
        members(patch).contains_key(key) && !(members(patch)[key] is Null) ==> members(
            merged(target, patch),
        ).contains_key(key) && members(merged(target, patch))[key] == merged(
            member_or_null(target, key),
            members(patch)[key],
        ),
{
}

/// An empty object patch leaves an object as it was.
pub proof fn empty_patch_keeps(target: JsonTree)
    requires
        target is Object,
    ensures
        merged(target, JsonTree::Object(Map::empty())) == target,
{
    let p = JsonTree::Object(Map::<Seq<char>, JsonTree>::empty());
    assert(members(merged(target, p)) =~= members(target));
}

} // verus!
