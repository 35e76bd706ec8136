//! Text helpers shared by the other modules.

use vstd::prelude::*;
use vstd::utf8::*;

verus! {

/// The characters that carry Unicode's `White_Space` property.
pub open spec fn is_white_space(c: char) -> bool {
    ||| '\u{9}' <= c <= '\u{d}'
    ||| c == '\u{20}'
    ||| c == '\u{85}'
    ||| c == '\u{a0}'
    ||| c == '\u{1680}'
    ||| '\u{2000}' <= c <= '\u{200a}'
    ||| c == '\u{2028}'
    ||| c == '\u{2029}'
    ||| c == '\u{202f}'
    ||| c == '\u{205f}'
    ||| c == '\u{3000}'
}

/// `s` without its leading white space.
pub open spec fn trimmed_start(s: Seq<char>) -> Seq<char>
    decreases s.len(),
{
    if s.len() > 0 && is_white_space(s[0]) {
        trimmed_start(s.skip(1))
    } else {
        s
    }
}

/// `s` without its trailing white space.
pub open spec fn trimmed_end(s: Seq<char>) -> Seq<char>
    decreases s.len(),
{
    if s.len() > 0 && is_white_space(s.last()) {
        trimmed_end(s.drop_last())
    } else {
        s
    }
}

/// `s` without its leading and trailing white space.
pub open spec fn trimmed(s: Seq<char>) -> Seq<char> {
    trimmed_end(trimmed_start(s))
}

/// At most the first `n` characters of `s`.
pub open spec fn at_most(s: Seq<char>, n: nat) -> Seq<char> {
    if s.len() <= n {
        s
    } else {
        s.take(n as int)
    }
}

/// Calls `str::trim`: the part of `s` that is left once the leading and the trailing characters
/// with the `White_Space` property are gone.
#[verifier::external_body]
pub(crate) fn trim(s: &str) -> (r: &str)
    ensures
        r@ == trimmed(s@),
{
    s.trim()
}

/// What `String::from_utf8_lossy` makes of bytes that need not be UTF-8.
pub uninterp spec fn lossy_text(bytes: Seq<u8>) -> Seq<char>;

/// Calls `String::from_utf8_lossy`. On UTF-8 the result is the text that the bytes encode; what
/// stands for the invalid parts of other input is only named.
#[verifier::external_body]
pub(crate) fn from_utf8_lossy(bytes: &[u8]) -> (r: String)
    ensures
        r@ == lossy_text(bytes@),
        valid_utf8(bytes@) ==> r@ == decode_utf8(bytes@),
{
    String::from_utf8_lossy(bytes).into_owned()
}

/// The first `limit` characters of `s`, or all of `s` where it is shorter.
pub fn snippet(s: &str, limit: usize) -> (r: String)
    ensures
        r@ == at_most(s@, limit as nat),
        r@.len() == if s@.len() <= limit {
            s@.len()
        } else {
            limit as nat
        },
        r@ == s@.take(r@.len() as int),
{
    let length: usize = s.unicode_len();
    if length <= limit {
        s.to_owned()
    } else {
        s.substring_char(0, limit).to_owned()
    }
}

/// Cutting a text keeps its start, and no less of it than the limit lets through.
pub proof fn cutting_keeps_the_start(s: Seq<char>, n: nat)
    ensures
        at_most(s, n) == s.take(at_most(s, n).len() as int),
        at_most(s, n).len() <= n,
        at_most(s, n).len() < n ==> at_most(s, n) == s,
        at_most(s, n).len() <= s.len(),
{
}

/// Trimming takes the white space around a text away and nothing else: `core` is what is left of
/// it between white space.
pub proof fn trimming_leaves_the_core(before: Seq<char>, core: Seq<char>, behind: Seq<char>)
    requires
        forall|i: int| 0 <= i < before.len() ==> is_white_space(#[trigger] before[i]),
        forall|i: int| 0 <= i < behind.len() ==> is_white_space(#[trigger] behind[i]),
        core.len() > 0 ==> !is_white_space(core[0]) && !is_white_space(core.last()),
    ensures
        trimmed(before + core + behind) == core,
{
    if core.len() == 0 {
        let all = before + core + behind;
        assert forall|i: int| 0 <= i < all.len() implies is_white_space(#[trigger] all[i]) by {
            if i < before.len() {
                assert(all[i] == before[i]);
            } else {
                assert(all[i] == behind[i - before.len()]);
            }
        }
        lemma_trimmed_start(all, Seq::empty());
        assert(all + Seq::<char>::empty() =~= all);
        assert(core =~= Seq::<char>::empty());
    } else {
        assert(before + core + behind =~= before + (core + behind));
        assert((core + behind)[0] == core[0]);
        lemma_trimmed_start(before, core + behind);
        lemma_trimmed_end(core, behind);
    }
}

proof fn lemma_trimmed_start(before: Seq<char>, rest: Seq<char>)
    requires
        forall|i: int| 0 <= i < before.len() ==> is_white_space(#[trigger] before[i]),
        rest.len() > 0 ==> !is_white_space(rest[0]),
    ensures
        trimmed_start(before + rest) == rest,
    decreases before.len(),
{
    if before.len() > 0 {
        let tail = before.skip(1);
        assert forall|i: int| 0 <= i < tail.len() implies is_white_space(#[trigger] tail[i]) by {
            assert(tail[i] == before[i + 1]);
        }
        assert((before + rest)[0] == before[0]);
        assert((before + rest).skip(1) =~= tail + rest);
        lemma_trimmed_start(tail, rest);
    } else {
        assert(before + rest =~= rest);
    }
}

proof fn lemma_trimmed_end(core: Seq<char>, behind: Seq<char>)
    requires
        forall|i: int| 0 <= i < behind.len() ==> is_white_space(#[trigger] behind[i]),
        core.len() > 0 ==> !is_white_space(core.last()),
    ensures
        trimmed_end(core + behind) == core,
    decreases behind.len(),
{
    if behind.len() > 0 {
        let init = behind.drop_last();
        assert forall|i: int| 0 <= i < init.len() implies is_white_space(#[trigger] init[i]) by {
            assert(init[i] == behind[i]);
        }
        assert((core + behind).last() == behind[behind.len() - 1]);
        assert((core + behind).drop_last() =~= core + init);
        lemma_trimmed_end(core, init);
    } else {
        assert(core + behind =~= core);
    }
}

} // verus!
