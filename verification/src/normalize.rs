//! White space normalization of attribute values.

use vstd::prelude::*;

verus! {

/// The four white space bytes of XML: space, tab, line feed, carriage return.
pub open spec fn is_space(b: u8) -> bool {
    b == 0x20 || b == 0x09 || b == 0x0a || b == 0x0d
}

/// `s` without its leading run of white space.
pub open spec fn trim_start(s: Seq<u8>) -> Seq<u8>
    decreases s.len(),
{
    if s.len() > 0 && is_space(s[0]) {
        trim_start(s.drop_first())
    } else {
        s
    }
}

/// `s` with every run of white space that is followed by text replaced by
/// one space, and a run that reaches the end removed.
pub open spec fn collapse(s: Seq<u8>) -> Seq<u8>
    decreases s.len(),
{
    if s.len() == 0 {
        s
    } else if !is_space(s[0]) {
        seq![s[0]] + collapse(s.drop_first())
    } else if s.len() == 1 || is_space(s[1]) {
        collapse(s.drop_first())
    } else {
        seq![0x20u8] + collapse(s.drop_first())
    }
}

/// The normalized form of an attribute value: leading and trailing white
/// space removed, each inner run of white space replaced by one space.
pub open spec fn normalized_space(s: Seq<u8>) -> Seq<u8> {
    collapse(trim_start(s))
}

/// The bytes of `s` that are no white space, in their order.
pub open spec fn text_bytes(s: Seq<u8>) -> Seq<u8>
    decreases s.len(),
{
    if s.len() == 0 {
        s
    } else if is_space(s[0]) {
        text_bytes(s.drop_first())
    } else {
        seq![s[0]] + text_bytes(s.drop_first())
    }
}

/// Every white space byte of `t` is a space that is followed by text.
pub open spec fn spaces_single(t: Seq<u8>) -> bool {
    forall|i: int|
        0 <= i < t.len() && is_space(#[trigger] t[i]) ==> t[i] == 0x20 && i + 1 < t.len()
            && !is_space(t[i + 1])
}

/// `t` is in normal form: it neither starts nor ends with white space, and
/// its only white space is single spaces between text.
pub open spec fn is_normalized(t: Seq<u8>) -> bool {
    spaces_single(t) && (t.len() > 0 ==> !is_space(t[0]))
}

proof fn lemma_trim_start_begins_with_text(s: Seq<u8>)
    ensures
        trim_start(s).len() > 0 ==> !is_space(trim_start(s)[0]),
        trim_start(s).len() <= s.len(),
    decreases s.len(),
{
    if s.len() > 0 && is_space(s[0]) {
        lemma_trim_start_begins_with_text(s.drop_first());
    }
}

proof fn lemma_collapse_spaces_single(s: Seq<u8>)
    ensures
        spaces_single(collapse(s)),
        collapse(s).len() > 0 && is_space(collapse(s)[0]) ==> s.len() > 0 && is_space(s[0]),
        s.len() > 0 && !is_space(s[0]) ==> collapse(s).len() > 0 && collapse(s)[0] == s[0],
    decreases s.len(),
{
    if s.len() > 0 {
        let r = s.drop_first();
        lemma_collapse_spaces_single(r);
        let c = collapse(s);
        let cr = collapse(r);
        if !is_space(s[0]) {
            assert forall|i: int| 0 <= i < c.len() && is_space(#[trigger] c[i]) implies c[i]
                == 0x20 && i + 1 < c.len() && !is_space(c[i + 1]) by {
                assert(c[i] == cr[i - 1]);
                assert(c[i + 1] == cr[i]);
            }
        } else if s.len() == 1 || is_space(s[1]) {
        } else {
            assert(r[0] == s[1]);
            assert forall|i: int| 0 <= i < c.len() && is_space(#[trigger] c[i]) implies c[i]
                == 0x20 && i + 1 < c.len() && !is_space(c[i + 1]) by {
                if i > 0 {
                    assert(c[i] == cr[i - 1]);
                    assert(c[i + 1] == cr[i]);
                } else {
                    assert(c[1] == cr[0]);
                }
            }
        }
    }
}

proof fn lemma_collapse_fixes_single_spaces(t: Seq<u8>)
    requires
        spaces_single(t),
    ensures
        collapse(t) == t,
    decreases t.len(),
{
    if t.len() > 0 {
        let r = t.drop_first();
        assert forall|i: int| 0 <= i < r.len() && is_space(#[trigger] r[i]) implies r[i] == 0x20
            && i + 1 < r.len() && !is_space(r[i + 1]) by {
            assert(r[i] == t[i + 1]);
            assert(is_space(t[i + 1]));
        }
        lemma_collapse_fixes_single_spaces(r);
        if is_space(t[0]) {
            assert(t[0] == 0x20 && 1 < t.len() && !is_space(t[1]));
            assert(seq![0x20u8] + r =~= t);
        } else {
            assert(seq![t[0]] + r =~= t);
        }
    }
}

proof fn lemma_text_bytes_of_trimmed(s: Seq<u8>)
    ensures
        text_bytes(trim_start(s)) == text_bytes(s),
    decreases s.len(),
{
    if s.len() > 0 && is_space(s[0]) {
        lemma_text_bytes_of_trimmed(s.drop_first());
    }
}

proof fn lemma_text_bytes_of_collapsed(s: Seq<u8>)
    ensures
        text_bytes(collapse(s)) == text_bytes(s),
    decreases s.len(),
{
    if s.len() > 0 {
        let r = s.drop_first();
        lemma_text_bytes_of_collapsed(r);
        if !is_space(s[0]) {
            assert((seq![s[0]] + collapse(r)).drop_first() =~= collapse(r));
        } else if s.len() == 1 || is_space(s[1]) {
        } else {
            assert((seq![0x20u8] + collapse(r)).drop_first() =~= collapse(r));
        }
    }
}

/// Normalizing touches white space only: the other bytes stay, in their
/// order.
pub proof fn lemma_normalize_space_keeps_text(s: Seq<u8>)
    ensures
        text_bytes(normalized_space(s)) == text_bytes(s),
{
    lemma_text_bytes_of_trimmed(s);
    lemma_text_bytes_of_collapsed(trim_start(s));
}

/// What `normalize_space` returns is in normal form.
pub proof fn lemma_normalized_space_is_normalized(s: Seq<u8>)
    ensures
        is_normalized(normalized_space(s)),
{
    lemma_trim_start_begins_with_text(s);
    lemma_collapse_spaces_single(trim_start(s));
}

/// A value in normal form is left as it is.
pub proof fn lemma_normalized_is_fixed(t: Seq<u8>)
    requires
        is_normalized(t),
    ensures
        normalized_space(t) == t,
{
    lemma_collapse_fixes_single_spaces(t);
}

/// Normalizing twice gives what normalizing once gives.
pub proof fn lemma_normalize_space_idempotent(s: Seq<u8>)
    ensures
        normalized_space(normalized_space(s)) == normalized_space(s),
{
    lemma_normalized_space_is_normalized(s);
    lemma_normalized_is_fixed(normalized_space(s));
}

fn is_space_byte(b: u8) -> (r: bool)
    ensures
        r == is_space(b),
{
    b == 0x20 || b == 0x09 || b == 0x0a || b == 0x0d
}

/// Normalizes the white space of an attribute value: `\r`, `\n` and `\t`
/// count as spaces, leading and trailing spaces are removed, and each run of
/// spaces between text becomes a single space.
pub fn normalize_space(bytes: &[u8]) -> (normalized: Vec<u8>)
    ensures
        normalized@ == normalized_space(bytes@),
        is_normalized(normalized@),
{
    let mut normalized: Vec<u8> = Vec::with_capacity(bytes.len());
    let mut char_found = false;
    let mut last_space = false;
    let mut i: usize = 0;
    assert(bytes@.skip(0) =~= bytes@);
    while i < bytes.len()
        invariant
            i <= bytes.len(),
            !char_found ==> !last_space && normalized@.len() == 0 && normalized_space(bytes@)
                == collapse(trim_start(bytes@.skip(i as int))),
            char_found && !last_space ==> normalized@.len() > 0 && !is_space(normalized@.last())
                && normalized_space(bytes@) == normalized@ + collapse(bytes@.skip(i as int)),
            last_space ==> char_found && i > 0 && is_space(bytes@[i - 1]) && normalized@.len() > 0
                && normalized@.last() == 0x20 && normalized_space(bytes@)
                == normalized@.drop_last() + collapse(bytes@.skip(i - 1)),
        decreases bytes.len() - i,
    {
        let b = bytes[i];
        let ghost before = normalized@;
        let ghost rest = bytes@.skip(i as int);
        let ghost tail = collapse(bytes@.skip(i + 1));
        proof {
            assert(rest.len() > 0 && rest[0] == b);
            assert(rest.drop_first() =~= bytes@.skip(i + 1));
            if last_space {
                let run = bytes@.skip(i - 1);
                assert(run.len() > 1 && run[0] == bytes@[i - 1] && run[1] == b);
                assert(run.drop_first() =~= rest);
            }
        }
        if is_space_byte(b) {
            if char_found && !last_space {
                normalized.push(0x20);
                last_space = true;
                assert(normalized@.drop_last() =~= before);
            }
        } else {
            proof {
                assert(collapse(rest) == seq![b] + tail);
                if last_space {
                    assert(before.drop_last() + (seq![0x20u8] + (seq![b] + tail)) =~= before.push(b)
                        + tail);
                } else if char_found {
                    assert(before + (seq![b] + tail) =~= before.push(b) + tail);
                } else {
                    assert(trim_start(rest) == rest);
                    assert(seq![b] + tail =~= before.push(b) + tail);
                }
            }
            char_found = true;
            last_space = false;
            normalized.push(b);
        }
        i += 1;
    }
    proof {
        if last_space {
            let run = bytes@.skip(i - 1);
            assert(run.len() == 1);
            assert(collapse(run.drop_first()).len() == 0);
            assert(normalized@.drop_last() + collapse(run) =~= normalized@.drop_last());
        } else if char_found {
            assert(collapse(bytes@.skip(i as int)).len() == 0);
            assert(normalized@ + collapse(bytes@.skip(i as int)) =~= normalized@);
        } else {
            assert(trim_start(bytes@.skip(i as int)).len() == 0);
        }
    }
    let n = normalized.len();
    if n > 0 && normalized[n - 1] == 0x20 {
        normalized.pop();
    }
    proof {
        lemma_normalized_space_is_normalized(bytes@);
    }
    normalized
}

} // verus!
