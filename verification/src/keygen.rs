use vstd::arithmetic::div_mod::lemma_add_mod_noop_right;
use vstd::arithmetic::div_mod::lemma_mod_add_multiples_vanish;
use vstd::arithmetic::div_mod::lemma_mod_bound;
use vstd::arithmetic::div_mod::lemma_mod_self_0;
use vstd::arithmetic::div_mod::lemma_small_mod;
use vstd::prelude::*;
use vstd::string::StrSliceExecFns;

use crate::lowercase_char;
use crate::to_lowercase_char;

verus! {

/// The key character that the `i`-th call to [`KeyGenerator::advance`]
/// (counting from zero) produces for the given keyword and case policy: the
/// keyword character at position `i` modulo the keyword length, forced to
/// lowercase when `retain` is set.
pub open spec fn key_char_at(kw: Seq<char>, retain: bool, i: int) -> char
    recommends
        kw.len() > 0,
        0 <= i,
{
    let c = kw[i % kw.len() as int];
    if retain {
        lowercase_char(c)
    } else {
        c
    }
}

/// The first `n` key characters a generator over `kw` with policy `retain`
/// produces.
pub open spec fn key_stream(kw: Seq<char>, retain: bool, n: nat) -> Seq<char> {
    Seq::new(n, |i: int| key_char_at(kw, retain, i))
}

/// Law: for every non-empty keyword and every number of calls `n`, the first
/// `n` key characters are the keyword's characters repeated cyclically and
/// truncated to length `n` (with lowercase forcing applied when `retain` is
/// set): the first cycle is the keyword itself, and from then on each key
/// repeats the one a full keyword length earlier, with no gap or repeat at
/// the wrap boundary.
pub proof fn lemma_key_stream_cyclic(kw: Seq<char>, retain: bool, n: nat)
    requires
        kw.len() > 0,
    ensures
        key_stream(kw, retain, n).len() == n,
        forall|i: int|
            0 <= i < n && i < kw.len() ==> #[trigger] key_stream(kw, retain, n)[i] == (if retain {
                lowercase_char(kw[i])
            } else {
                kw[i]
            }),
        forall|i: int|
            0 <= i && i + kw.len() < n ==> #[trigger] key_stream(kw, retain, n)[i + kw.len()]
                == key_stream(kw, retain, n)[i],
{
    let len = kw.len() as int;
    assert forall|i: int| 0 <= i < n && i < kw.len() implies #[trigger] key_stream(
        kw,
        retain,
        n,
    )[i] == (if retain {
        lowercase_char(kw[i])
    } else {
        kw[i]
    }) by {
        lemma_small_mod(i as nat, kw.len());
    }
    assert forall|i: int| 0 <= i && i + kw.len() < n implies #[trigger] key_stream(
        kw,
        retain,
        n,
    )[i + kw.len()] == key_stream(kw, retain, n)[i] by {
        lemma_mod_add_multiples_vanish(i, len);
    }
}

/// Error returned when a [`KeyGenerator`] is constructed with an empty
/// keyword: the cursor would have no character to point at.
#[derive(Clone, Copy, Debug, PartialEq, Eq, Structural)]
pub struct InvalidKeyword;

/// A lazy generator of key characters: it yields the letters of its keyword
/// one per call, cycling back to the first letter after the last.
pub struct KeyGenerator {
    /// The word whose letters serve as keys in a cipher.
    keyword: String,
    /// Whether to force each produced key character to lowercase.
    retain_case: bool,
    /// The index of the keyword character the next call will produce.
    position: usize,
    /// How many key characters have been produced so far.
    count: Ghost<nat>,
}

impl KeyGenerator {
    /// The keyword, as the sequence of its characters (code points).
    pub closed spec fn keyword_view(self) -> Seq<char> {
        self.keyword@
    }

    /// Whether the generator forces each produced character to lowercase.
    pub closed spec fn retains_case(self) -> bool {
        self.retain_case
    }

    /// The number of key characters produced since construction.
    pub closed spec fn keys_produced(self) -> nat {
        self.count@
    }

    /// Well-formedness: the keyword is non-empty and the cursor points at the
    /// keyword character whose turn it is, namely the number of characters
    /// produced so far taken modulo the keyword length.
    pub closed spec fn wf(self) -> bool {
        &&& self.keyword@.len() > 0
        &&& self.position == self.count@ % self.keyword@.len()
    }

    /// Creates a generator whose cursor sits before the keyword's first
    /// letter, so that the first call to `advance` yields it. An empty
    /// keyword is rejected.
    pub fn new(keyword: String, retain_case: bool) -> (r: Result<KeyGenerator, InvalidKeyword>)
        ensures
            keyword@.len() > 0 <==> r is Ok,
            r matches Ok(g) ==> {
                &&& g.wf()
                &&& g.keyword_view() == keyword@
                &&& g.retains_case() == retain_case
                &&& g.keys_produced() == 0
            },
    {
        if keyword.as_str().unicode_len() == 0 {
            Err(InvalidKeyword)
        } else {
            proof {
                assert(0nat % keyword@.len() == 0);
            }
            Ok(KeyGenerator { keyword, retain_case, position: 0, count: Ghost(0nat) })
        }
    }

    /// Produces the next key character and moves the cursor one step, back to
    /// the keyword's first character after its last: the call number `i`
    /// (counting from zero) returns [`key_char_at`] of `i`, so the stream of
    /// produced characters is the keyword repeated cyclically, forced to
    /// lowercase when the generator retains case.
    pub fn advance(&mut self) -> (key: char)
        requires
            old(self).wf(),
        ensures
            final(self).wf(),
            final(self).keyword_view() == old(self).keyword_view(),
            final(self).retains_case() == old(self).retains_case(),
            final(self).keys_produced() == old(self).keys_produced() + 1,
            key == key_char_at(
                old(self).keyword_view(),
                old(self).retains_case(),
                old(self).keys_produced() as int,
            ),
    {
        proof {
            lemma_mod_bound(self.count@ as int, self.keyword@.len() as int);
        }
        let keyword_len = self.keyword.as_str().unicode_len();
        let raw = self.keyword.as_str().get_char(self.position);
        proof {
            let len = self.keyword@.len() as int;
            let produced = self.count@ as int;
            lemma_add_mod_noop_right(1, produced, len);
            if self.position + 1 == keyword_len {
                lemma_mod_self_0(len);
            } else {
                lemma_small_mod((self.position + 1) as nat, self.keyword@.len());
            }
        }
        if self.position + 1 >= keyword_len {
            self.position = 0;
        } else {
            self.position = self.position + 1;
        }
        self.count = Ghost(self.count@ + 1);
        if self.retain_case {
            to_lowercase_char(raw)
        } else {
            raw
        }
    }
}

} // verus!
