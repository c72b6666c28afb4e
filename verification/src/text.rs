//! Byte-level text utilities shared by the mesh and material parsers:
//! splitting input into lines, splitting lines into whitespace-separated
//! tokens, splitting face tokens on `/`, and parsing decimal integers.

use vstd::prelude::*;

verus! {

/// Line feed, the line separator.
pub open spec fn is_newline(b: u8) -> bool {
    b == 10
}

/// Blank bytes between tokens: space, tab, and carriage return (so that
/// `\r\n` line endings leave no stray byte on the token level).
pub open spec fn is_space(b: u8) -> bool {
    b == 32 || b == 9 || b == 13
}

/// Splitting `s` on line feeds when `cur` holds the bytes of the line read
/// so far. A trailing line without a final line feed still counts; a final
/// line feed adds no empty line.
pub open spec fn line_split_rec(s: Seq<u8>, cur: Seq<u8>) -> Seq<Seq<u8>>
    decreases s.len(),
{
    if s.len() == 0 {
        if cur.len() == 0 {
            seq![]
        } else {
            seq![cur]
        }
    } else if is_newline(s[0]) {
        seq![cur] + line_split_rec(s.skip(1), seq![])
    } else {
        line_split_rec(s.skip(1), cur.push(s[0]))
    }
}

/// The lines of `s`, split on line feeds.
pub open spec fn split_lines(s: Seq<u8>) -> Seq<Seq<u8>> {
    line_split_rec(s, seq![])
}

/// Splitting `s` into whitespace-separated tokens when `cur` holds the token
/// read so far; empty tokens are dropped.
pub open spec fn token_split_rec(s: Seq<u8>, cur: Seq<u8>) -> Seq<Seq<u8>>
    decreases s.len(),
{
    if s.len() == 0 {
        if cur.len() == 0 {
            seq![]
        } else {
            seq![cur]
        }
    } else if is_space(s[0]) {
        if cur.len() == 0 {
            token_split_rec(s.skip(1), seq![])
        } else {
            seq![cur] + token_split_rec(s.skip(1), seq![])
        }
    } else {
        token_split_rec(s.skip(1), cur.push(s[0]))
    }
}

/// The whitespace-separated tokens of one line.
pub open spec fn split_tokens(s: Seq<u8>) -> Seq<Seq<u8>> {
    token_split_rec(s, seq![])
}

/// Splitting `s` on `/`, keeping empty fields, when `cur` holds the field
/// read so far. `1//3` has the fields `1`, ``, `3`.
pub open spec fn slash_split_rec(s: Seq<u8>, cur: Seq<u8>) -> Seq<Seq<u8>>
    decreases s.len(),
{
    if s.len() == 0 {
        seq![cur]
    } else if s[0] == 47 {
        seq![cur] + slash_split_rec(s.skip(1), seq![])
    } else {
        slash_split_rec(s.skip(1), cur.push(s[0]))
    }
}

/// The `/`-separated fields of a face token; always at least one field.
pub open spec fn split_slash(s: Seq<u8>) -> Seq<Seq<u8>> {
    slash_split_rec(s, seq![])
}

/// Splitting on `/` always yields at least one field.
pub proof fn lemma_split_slash_len(s: Seq<u8>, cur: Seq<u8>)
    ensures
        slash_split_rec(s, cur).len() >= 1,
    decreases s.len(),
{
    if s.len() == 0 {
    } else if s[0] == 47 {
    } else {
        lemma_split_slash_len(s.skip(1), cur.push(s[0]));
    }
}

/// An ASCII decimal digit.
pub open spec fn is_digit(b: u8) -> bool {
    48 <= b && b <= 57
}

pub open spec fn all_digits(s: Seq<u8>) -> bool {
    forall|i: int| 0 <= i < s.len() ==> is_digit(#[trigger] s[i])
}

/// The value of a digit string, most significant digit first.
pub open spec fn dec_val(s: Seq<u8>) -> nat
    decreases s.len(),
{
    if s.len() == 0 {
        0
    } else {
        (dec_val(s.drop_last()) * 10 + (s.last() - 48)) as nat
    }
}

/// A non-empty, all-digit token whose value fits in `u32` parses to that
/// value; anything else does not parse.
pub open spec fn parse_u32_spec(s: Seq<u8>) -> Option<u32> {
    if s.len() > 0 && all_digits(s) && dec_val(s) <= u32::MAX {
        Some(dec_val(s) as u32)
    } else {
        None
    }
}

/// Reading further digits never shrinks the value.
proof fn lemma_dec_val_prefix_le(s: Seq<u8>, i: int)
    requires
        0 <= i <= s.len(),
        all_digits(s),
    ensures
        dec_val(s.take(i)) <= dec_val(s),
    decreases s.len() - i,
{
    if i < s.len() {
        assert(s.take(i + 1).drop_last() =~= s.take(i));
        assert(is_digit(s[i]));
        assert(s.take(i + 1).last() == s[i]);
        assert(dec_val(s.take(i + 1)) == dec_val(s.take(i)) * 10 + (s[i] - 48));
        lemma_dec_val_prefix_le(s, i + 1);
    } else {
        assert(s.take(i) =~= s);
    }
}

/// Parses a decimal `u32`, exactly as `parse_u32_spec` describes.
pub fn parse_u32(s: &Vec<u8>) -> (r: Option<u32>)
    ensures
        r == parse_u32_spec(s@),
{
    if s.len() == 0 {
        return None;
    }
    let mut acc: u64 = 0;
    let mut i: usize = 0;
    while i < s.len()
        invariant
            0 <= i <= s.len(),
            acc == dec_val(s@.take(i as int)),
            acc <= u32::MAX,
            all_digits(s@.take(i as int)),
        decreases s.len() - i,
    {
        let b = s[i];
        if b < 48 || b > 57 {
            assert(!is_digit(s@[i as int]));
            return None;
        }
        acc = acc * 10 + ((b - 48) as u64);
        proof {
            assert(s@.take(i + 1).drop_last() =~= s@.take(i as int));
            assert(s@.take(i + 1).last() == s@[i as int]);
            assert(forall|j: int| 0 <= j < i + 1 ==> is_digit(#[trigger] s@.take(i + 1)[j]));
        }
        if acc > u32::MAX as u64 {
            proof {
                if all_digits(s@) {
                    lemma_dec_val_prefix_le(s@, i + 1);
                }
            }
            return None;
        }
        i = i + 1;
    }
    proof {
        assert(s@.take(i as int) =~= s@);
    }
    Some(acc as u32)
}

/// Splits `data` into lines, exactly as `split_lines` describes.
pub fn lines_of(data: &Vec<u8>) -> (r: Vec<Vec<u8>>)
    ensures
        r.deep_view() == split_lines(data@),
{
    let mut out: Vec<Vec<u8>> = Vec::new();
    let mut cur: Vec<u8> = Vec::new();
    let mut i: usize = 0;
    proof {
        assert(data@.skip(0) =~= data@);
        assert(cur@ =~= Seq::<u8>::empty());
        assert(Seq::<u8>::empty() =~= seq![]);
        assert(out.deep_view() + line_split_rec(data@, cur@) =~~= line_split_rec(data@, cur@));
    }
    while i < data.len()
        invariant
            0 <= i <= data.len(),
            split_lines(data@) == out.deep_view() + line_split_rec(data@.skip(i as int), cur@),
        decreases data.len() - i,
    {
        let b = data[i];
        proof {
            assert(data@.skip(i as int)[0] == data@[i as int]);
            assert(data@.skip(i as int).skip(1) =~= data@.skip(i + 1));
        }
        if b == 10 {
            let ghost prev = out.deep_view();
            let ghost curv = cur@;
            out.push(cur);
            cur = Vec::new();
            proof {
                assert(out.deep_view() =~~= prev.push(curv));
                assert(prev + (seq![curv] + line_split_rec(data@.skip(i + 1), seq![]))
                    =~~= prev.push(curv) + line_split_rec(data@.skip(i + 1), seq![]));
            }
        } else {
            cur.push(b);
        }
        i = i + 1;
    }
    proof {
        assert(data@.skip(i as int) =~= Seq::<u8>::empty());
    }
    if cur.len() > 0 {
        let ghost prev = out.deep_view();
        let ghost curv = cur@;
        out.push(cur);
        proof {
            assert(out.deep_view() =~~= prev.push(curv));
            assert(prev + seq![curv] =~~= prev.push(curv));
        }
    } else {
        proof {
            assert(out.deep_view() + line_split_rec(Seq::<u8>::empty(), cur@)
                =~~= out.deep_view());
        }
    }
    out
}

/// Splits one line into whitespace-separated tokens, exactly as
/// `split_tokens` describes.
pub fn tokens_of(line: &Vec<u8>) -> (r: Vec<Vec<u8>>)
    ensures
        r.deep_view() == split_tokens(line@),
{
    let mut out: Vec<Vec<u8>> = Vec::new();
    let mut cur: Vec<u8> = Vec::new();
    let mut i: usize = 0;
    proof {
        assert(line@.skip(0) =~= line@);
        assert(cur@ =~= Seq::<u8>::empty());
        assert(Seq::<u8>::empty() =~= seq![]);
        assert(out.deep_view() + token_split_rec(line@, cur@) =~~= token_split_rec(line@, cur@));
    }
    while i < line.len()
        invariant
            0 <= i <= line.len(),
            split_tokens(line@) == out.deep_view() + token_split_rec(line@.skip(i as int), cur@),
        decreases line.len() - i,
    {
        let b = line[i];
        proof {
            assert(line@.skip(i as int)[0] == line@[i as int]);
            assert(line@.skip(i as int).skip(1) =~= line@.skip(i + 1));
        }
        if b == 32 || b == 9 || b == 13 {
            if cur.len() > 0 {
                let ghost prev = out.deep_view();
                let ghost curv = cur@;
                out.push(cur);
                cur = Vec::new();
                proof {
                    assert(out.deep_view() =~~= prev.push(curv));
                    assert(prev + (seq![curv] + token_split_rec(line@.skip(i + 1), seq![]))
                        =~~= prev.push(curv) + token_split_rec(line@.skip(i + 1), seq![]));
                }
            } else {
                proof {
                    assert(cur@ =~= Seq::<u8>::empty());
                    assert(cur@ =~= seq![]);
                }
            }
        } else {
            cur.push(b);
        }
        i = i + 1;
    }
    proof {
        assert(line@.skip(i as int) =~= Seq::<u8>::empty());
    }
    if cur.len() > 0 {
        let ghost prev = out.deep_view();
        let ghost curv = cur@;
        out.push(cur);
        proof {
            assert(out.deep_view() =~~= prev.push(curv));
            assert(prev + seq![curv] =~~= prev.push(curv));
        }
    } else {
        proof {
            assert(out.deep_view() + token_split_rec(Seq::<u8>::empty(), cur@)
                =~~= out.deep_view());
        }
    }
    out
}

/// Splits a face token on `/`, exactly as `split_slash` describes.
pub fn slash_fields_of(tok: &Vec<u8>) -> (r: Vec<Vec<u8>>)
    ensures
        r.deep_view() == split_slash(tok@),
{
    let mut out: Vec<Vec<u8>> = Vec::new();
    let mut cur: Vec<u8> = Vec::new();
    let mut i: usize = 0;
    proof {
        assert(tok@.skip(0) =~= tok@);
        assert(cur@ =~= Seq::<u8>::empty());
        assert(Seq::<u8>::empty() =~= seq![]);
        assert(out.deep_view() + slash_split_rec(tok@, cur@) =~~= slash_split_rec(tok@, cur@));
    }
    while i < tok.len()
        invariant
            0 <= i <= tok.len(),
            split_slash(tok@) == out.deep_view() + slash_split_rec(tok@.skip(i as int), cur@),
        decreases tok.len() - i,
    {
        let b = tok[i];
        proof {
            assert(tok@.skip(i as int)[0] == tok@[i as int]);
            assert(tok@.skip(i as int).skip(1) =~= tok@.skip(i + 1));
        }
        if b == 47 {
            let ghost prev = out.deep_view();
            let ghost curv = cur@;
            out.push(cur);
            cur = Vec::new();
            proof {
                assert(out.deep_view() =~~= prev.push(curv));
                assert(prev + (seq![curv] + slash_split_rec(tok@.skip(i + 1), seq![]))
                    =~~= prev.push(curv) + slash_split_rec(tok@.skip(i + 1), seq![]));
            }
        } else {
            cur.push(b);
        }
        i = i + 1;
    }
    proof {
        assert(tok@.skip(i as int) =~= Seq::<u8>::empty());
    }
    let ghost prev = out.deep_view();
    let ghost curv = cur@;
    out.push(cur);
    proof {
        assert(out.deep_view() =~~= prev.push(curv));
        assert(prev + seq![curv] =~~= prev.push(curv));
    }
    out
}

/// The deep view of a byte vector is its plain view.
pub broadcast proof fn lemma_bytes_deep_view(v: Vec<u8>)
    ensures
        #[trigger] v.deep_view() == v@,
{
    assert(v.deep_view() =~= v@);
}

/// Copies a byte string.
pub fn copy_bytes(src: &Vec<u8>) -> (r: Vec<u8>)
    ensures
        r@ == src@,
{
    let mut out: Vec<u8> = Vec::new();
    let mut i: usize = 0;
    while i < src.len()
        invariant
            0 <= i <= src.len(),
            out@ == src@.take(i as int),
        decreases src.len() - i,
    {
        out.push(src[i]);
        proof {
            assert(src@.take(i + 1) =~= src@.take(i as int).push(src@[i as int]));
        }
        i = i + 1;
    }
    proof {
        assert(src@.take(i as int) =~= src@);
    }
    out
}

/// Whether two byte strings are equal.
pub fn bytes_eq(a: &Vec<u8>, b: &Vec<u8>) -> (r: bool)
    ensures
        r == (a@ == b@),
{
    if a.len() != b.len() {
        return false;
    }
    let mut i: usize = 0;
    while i < a.len()
        invariant
            0 <= i <= a.len(),
            a.len() == b.len(),
            forall|j: int| 0 <= j < i ==> a@[j] == b@[j],
        decreases a.len() - i,
    {
        if a[i] != b[i] {
            return false;
        }
        i = i + 1;
    }
    proof {
        assert(a@ =~= b@);
    }
    true
}

} // verus!
