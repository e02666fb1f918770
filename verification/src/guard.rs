//! The guard over the observability sources: a scan for names that would let
//! time, addresses or logging into them.

use vstd::prelude::*;
use vstd::string::StringSliceAdditionalSpecFns;

verus! {

/// Whether `needle` stands in `hay` at position `at`.
pub open spec fn spec_occurs_at(hay: Seq<u8>, needle: Seq<u8>, at: int) -> bool {
    0 <= at && at + needle.len() <= hay.len() && hay.subrange(at, at + needle.len()) == needle
}

/// Whether `needle` stands somewhere in `hay`.
pub open spec fn spec_contains(hay: Seq<u8>, needle: Seq<u8>) -> bool {
    exists|at: int| spec_occurs_at(hay, needle, at)
}

/// The forbidden names, as bytes: a wall-clock library, network-address
/// types, the wire-protocol module, time types and the printing and logging
/// macros.
pub open spec fn spec_forbidden_tokens() -> Seq<Seq<u8>> {
    seq![
        seq![99u8, 104u8, 114u8, 111u8, 110u8, 111u8],
        seq![115u8, 116u8, 100u8, 58u8, 58u8, 110u8, 101u8, 116u8],
        seq![83u8, 111u8, 99u8, 107u8, 101u8, 116u8, 65u8, 100u8, 100u8, 114u8],
        seq![73u8, 112u8, 65u8, 100u8, 100u8, 114u8],
        seq![
            114u8,
            101u8,
            108u8,
            97u8,
            121u8,
            95u8,
            112u8,
            114u8,
            111u8,
            116u8,
            111u8,
            99u8,
            111u8,
            108u8,
        ],
        seq![83u8, 121u8, 115u8, 116u8, 101u8, 109u8, 84u8, 105u8, 109u8, 101u8],
        seq![73u8, 110u8, 115u8, 116u8, 97u8, 110u8, 116u8],
        seq![108u8, 111u8, 103u8, 33u8, 40u8],
        seq![112u8, 114u8, 105u8, 110u8, 116u8, 108u8, 110u8, 33u8, 40u8],
        seq![101u8, 112u8, 114u8, 105u8, 110u8, 116u8, 108u8, 110u8, 33u8, 40u8],
    ]
}

/// Whether the first forbidden name that occurs in `contents` is the one at
/// `index`.
pub open spec fn spec_first_forbidden(contents: Seq<u8>, index: int) -> bool {
    &&& 0 <= index < spec_forbidden_tokens().len()
    &&& spec_contains(contents, spec_forbidden_tokens()[index])
    &&& forall|j: int|
        0 <= j < index ==> !spec_contains(contents, #[trigger] spec_forbidden_tokens()[j])
}

/// Whether `needle` stands in `hay` at position `at`.
pub fn occurs_at(hay: &[u8], needle: &[u8], at: usize) -> (b: bool)
    requires
        at + needle@.len() <= hay@.len(),
    ensures
        b == spec_occurs_at(hay@, needle@, at as int),
{
    let hay_len: usize = hay.len();
    let mut k: usize = 0;
    while k < needle.len()
        invariant
            0 <= k <= needle@.len(),
            hay_len == hay@.len(),
            at + needle@.len() <= hay@.len(),
            forall|j: int| 0 <= j < k ==> hay@[at + j] == needle@[j],
        decreases needle@.len() - k,
    {
        if hay[at + k] != needle[k] {
            proof {
                assert(hay@.subrange(at as int, at + needle@.len())[k as int] == hay@[at + k]);
            }
            return false;
        }
        k += 1;
    }
    proof {
        assert(hay@.subrange(at as int, at + needle@.len()) =~= needle@);
    }
    true
}

/// The first position at which `needle` stands in `hay`, if it stands in it.
pub fn find_token(hay: &[u8], needle: &[u8]) -> (found: Option<usize>)
    ensures
        found is Some <==> spec_contains(hay@, needle@),
        found is Some ==> spec_occurs_at(hay@, needle@, found->Some_0 as int) && forall|i: int|
            0 <= i < found->Some_0 ==> !spec_occurs_at(hay@, needle@, i),
{
    if needle.len() > hay.len() {
        assert(!spec_contains(hay@, needle@)) by {
            assert(forall|at: int| !spec_occurs_at(hay@, needle@, at));
        }
        return None;
    }
    let last: usize = hay.len() - needle.len();
    let mut at: usize = 0;
    loop
        invariant
            0 <= at <= last,
            last == hay@.len() - needle@.len(),
            forall|i: int| 0 <= i < at ==> !spec_occurs_at(hay@, needle@, i),
        ensures
            at == last,
            forall|i: int| 0 <= i <= last ==> !spec_occurs_at(hay@, needle@, i),
        decreases last - at,
    {
        if occurs_at(hay, needle, at) {
            return Some(at);
        }
        if at == last {
            break ;
        }
        at += 1;
    }
    assert(!spec_contains(hay@, needle@)) by {
        assert(forall|i: int| !spec_occurs_at(hay@, needle@, i));
    }
    None
}

/// Whether `needle` stands somewhere in `hay`.
pub fn contains_token(hay: &[u8], needle: &[u8]) -> (b: bool)
    ensures
        b == spec_contains(hay@, needle@),
{
    find_token(hay, needle).is_some()
}

/// The forbidden names, as bytes.
pub fn forbidden_tokens() -> (tokens: Vec<Vec<u8>>)
    ensures
        tokens@.len() == spec_forbidden_tokens().len(),
        forall|i: int| 0 <= i < tokens@.len() ==> (#[trigger] tokens@[i])@ == spec_forbidden_tokens()[i],
{
    let tokens = vec![
        vec![99u8, 104u8, 114u8, 111u8, 110u8, 111u8],
        vec![115u8, 116u8, 100u8, 58u8, 58u8, 110u8, 101u8, 116u8],
        vec![83u8, 111u8, 99u8, 107u8, 101u8, 116u8, 65u8, 100u8, 100u8, 114u8],
        vec![73u8, 112u8, 65u8, 100u8, 100u8, 114u8],
        vec![
            114u8,
            101u8,
            108u8,
            97u8,
            121u8,
            95u8,
            112u8,
            114u8,
            111u8,
            116u8,
            111u8,
            99u8,
            111u8,
            108u8,
        ],
        vec![83u8, 121u8, 115u8, 116u8, 101u8, 109u8, 84u8, 105u8, 109u8, 101u8],
        vec![73u8, 110u8, 115u8, 116u8, 97u8, 110u8, 116u8],
        vec![108u8, 111u8, 103u8, 33u8, 40u8],
        vec![112u8, 114u8, 105u8, 110u8, 116u8, 108u8, 110u8, 33u8, 40u8],
        vec![101u8, 112u8, 114u8, 105u8, 110u8, 116u8, 108u8, 110u8, 33u8, 40u8],
    ];
    proof {
        assert forall|i: int| 0 <= i < tokens@.len() implies (#[trigger] tokens@[i])@
            == spec_forbidden_tokens()[i] by {
            assert(tokens@[i]@ =~= spec_forbidden_tokens()[i]);
        }
    }
    tokens
}

/// Scans the text of a source file for forbidden names.
///
/// The result is the index of the first forbidden name, in the order of the
/// list, that occurs in `contents`, or `None` if none occurs.
pub fn find_forbidden_token(contents: &[u8]) -> (found: Option<usize>)
    ensures
        found is Some ==> spec_first_forbidden(contents@, found->Some_0 as int),
        found is None ==> forall|j: int|
            0 <= j < spec_forbidden_tokens().len() ==> !spec_contains(
                contents@,
                #[trigger] spec_forbidden_tokens()[j],
            ),
{
    let tokens = forbidden_tokens();
    let mut i: usize = 0;
    while i < tokens.len()
        invariant
            0 <= i <= tokens@.len(),
            tokens@.len() == spec_forbidden_tokens().len(),
            forall|k: int|
                0 <= k < tokens@.len() ==> (#[trigger] tokens@[k])@ == spec_forbidden_tokens()[k],
            forall|j: int|
                0 <= j < i ==> !spec_contains(contents@, #[trigger] spec_forbidden_tokens()[j]),
        decreases tokens@.len() - i,
    {
        if contains_token(contents, tokens[i].as_slice()) {
            return Some(i);
        }
        i += 1;
    }
    None
}

/// Whether the text of an observability source file passes the guard: no
/// forbidden name occurs in it.
pub fn enforce_observability_guards(contents: &str) -> (clean: bool)
    ensures
        clean <==> forall|j: int|
            0 <= j < spec_forbidden_tokens().len() ==> !spec_contains(
                contents.spec_bytes(),
                #[trigger] spec_forbidden_tokens()[j],
            ),
{
    match find_forbidden_token(contents.as_bytes()) {
        Some(i) => {
            proof {
                assert(spec_contains(contents.spec_bytes(), spec_forbidden_tokens()[i as int]));
            }
            false
        },
        None => true,
    }
}

/// Observability silence: text that passes the guard holds none of the
/// forbidden names, wherever one might stand; and any text in which one
/// stands fails the guard.
pub proof fn lemma_guard_is_sound(contents: Seq<u8>, index: int, at: int)
    requires
        0 <= index < spec_forbidden_tokens().len(),
        spec_occurs_at(contents, spec_forbidden_tokens()[index], at),
    ensures
        exists|first: int| spec_first_forbidden(contents, first),
    decreases index,
{
    assert(spec_contains(contents, spec_forbidden_tokens()[index]));
    if exists|j: int| 0 <= j < index && spec_contains(contents, spec_forbidden_tokens()[j]) {
        let j = choose|j: int| 0 <= j < index && spec_contains(contents, spec_forbidden_tokens()[j]);
        let at_j = choose|a: int| spec_occurs_at(contents, spec_forbidden_tokens()[j], a);
        lemma_guard_is_sound(contents, j, at_j);
    } else {
        assert(spec_first_forbidden(contents, index));
    }
}

} // verus!
