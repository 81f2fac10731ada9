//! The keys of the benchmark: the one on which every publisher emits and
//! the pattern to which every subscriber listens.

use vstd::prelude::*;

verus! {

/// What the two keys begin with.
pub open spec fn key_prefix() -> Seq<char> {
    seq!['d', 'e', 'm', 'o', '/', 'e', 'x', 'a', 'm', 'p', 'l', 'e', '/']
}

/// The text of the key on which the publishers emit: `demo/example/hello`.
pub open spec fn publish_key_text() -> Seq<char> {
    key_prefix() + seq!['h', 'e', 'l', 'l', 'o']
}

/// The text of the pattern to which the subscribers listen:
/// `demo/example/**`, every key below the prefix.
pub open spec fn subscribe_key_text() -> Seq<char> {
    key_prefix() + seq!['*', '*']
}

/// The key on which a publish worker emits each of its messages.
pub fn publish_key() -> (key: &'static str)
    ensures
        key@ == publish_key_text(),
{
    proof {
        reveal_strlit("demo/example/hello");
    }
    let key = "demo/example/hello";
    assert(key@ =~= publish_key_text());
    key
}

/// The pattern to which a subscribe worker listens.
pub fn subscribe_key() -> (key: &'static str)
    ensures
        key@ == subscribe_key_text(),
{
    proof {
        reveal_strlit("demo/example/**");
    }
    let key = "demo/example/**";
    assert(key@ =~= subscribe_key_text());
    key
}

} // verus!
