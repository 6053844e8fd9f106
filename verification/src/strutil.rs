//! Small verified string utilities: equality of string slices, splitting on
//! whitespace (the shape of both command lines and shell input), and octal
//! parsing for the file-mode creation mask.

use vstd::prelude::*;

verus! {

/// Equality of two string slices, by their character sequences.
pub fn str_eq(a: &str, b: &str) -> (r: bool)
    ensures
        r == (a@ == b@),
{
    let x: String = a.to_owned();
    let y: String = b.to_owned();
    x == y
}

/// The four whitespace characters this supervisor splits on.
pub open spec fn spec_is_ws(c: char) -> bool {
    c == ' ' || c == '\t' || c == '\n' || c == '\r'
}

/// Whether `c` is one of the whitespace characters.
pub fn is_ws(c: char) -> (r: bool)
    ensures
        r == spec_is_ws(c),
{
    let n = c as u32;
    n == 32 || n == 9 || n == 10 || n == 13
}

/// Tokenization of `s` from position `i` on, with `cur` the partial token
/// read so far and `out` the tokens already complete: the maximal non-blank
/// runs of the remainder, appended to what was accumulated.
pub open spec fn spec_split_acc(
    s: Seq<char>,
    i: int,
    cur: Seq<char>,
    out: Seq<Seq<char>>,
) -> Seq<Seq<char>>
    decreases s.len() - i,
{
    if i < 0 || i >= s.len() {
        if cur.len() > 0 {
            out.push(cur)
        } else {
            out
        }
    } else if spec_is_ws(s[i]) {
        if cur.len() > 0 {
            spec_split_acc(s, i + 1, Seq::empty(), out.push(cur))
        } else {
            spec_split_acc(s, i + 1, cur, out)
        }
    } else {
        spec_split_acc(s, i + 1, cur.push(s[i]), out)
    }
}

/// The whitespace-separated tokens of `s`, in order.
pub open spec fn spec_split_ws(s: Seq<char>) -> Seq<Seq<char>> {
    spec_split_acc(s, 0, Seq::empty(), Seq::empty())
}

/// Splits `s` on whitespace into its maximal non-blank tokens.
pub fn split_ws(s: &str) -> (tokens: Vec<String>)
    ensures
        tokens.deep_view() == spec_split_ws(s@),
{
    let n = s.unicode_len();
    let mut tokens: Vec<String> = Vec::new();
    let mut i: usize = 0;
    let mut tok_start: usize = 0;
    let mut in_token = false;
    proof {
        assert(tokens.deep_view() =~= Seq::<Seq<char>>::empty());
    }
    while i < n
        invariant
            n == s@.len(),
            i <= n,
            in_token ==> tok_start < i,
            in_token ==> forall|k: int| tok_start <= k < i ==> !spec_is_ws(s@[k]),
            spec_split_ws(s@) == spec_split_acc(
                s@,
                i as int,
                if in_token {
                    s@.subrange(tok_start as int, i as int)
                } else {
                    Seq::<char>::empty()
                },
                tokens.deep_view(),
            ),
        decreases n - i,
    {
        let ghost cur: Seq<char> = if in_token {
            s@.subrange(tok_start as int, i as int)
        } else {
            Seq::<char>::empty()
        };
        let ghost outs: Seq<Seq<char>> = tokens.deep_view();
        let c = s.get_char(i);
        if is_ws(c) {
            if in_token {
                let tok = s.substring_char(tok_start, i).to_owned();
                tokens.push(tok);
                in_token = false;
                proof {
                    assert(cur.len() > 0);
                    assert(tokens.deep_view() =~= outs.push(cur));
                    assert(spec_split_acc(s@, i as int, cur, outs) == spec_split_acc(
                        s@,
                        i as int + 1,
                        Seq::<char>::empty(),
                        outs.push(cur),
                    ));
                }
            } else {
                proof {
                    assert(spec_split_acc(s@, i as int, cur, outs) == spec_split_acc(
                        s@,
                        i as int + 1,
                        cur,
                        outs,
                    ));
                }
            }
        } else {
            if !in_token {
                tok_start = i;
                in_token = true;
                proof {
                    assert(s@.subrange(i as int, i as int) =~= Seq::<char>::empty());
                }
            }
            proof {
                assert(s@.subrange(tok_start as int, i as int + 1) =~= s@.subrange(
                    tok_start as int,
                    i as int,
                ).push(s@[i as int]));
                assert(spec_split_acc(s@, i as int, cur, outs) == spec_split_acc(
                    s@,
                    i as int + 1,
                    cur.push(s@[i as int]),
                    outs,
                ));
            }
        }
        i += 1;
    }
    if in_token {
        let ghost cur: Seq<char> = s@.subrange(tok_start as int, n as int);
        let ghost outs: Seq<Seq<char>> = tokens.deep_view();
        let tok = s.substring_char(tok_start, n).to_owned();
        tokens.push(tok);
        proof {
            assert(tokens.deep_view() =~= outs.push(cur));
        }
    }
    tokens
}

/// Whether `c` is an octal digit.
pub open spec fn spec_is_octal_digit(c: char) -> bool {
    '0' <= c && c <= '7'
}

/// The value of `s` read as an octal numeral.
pub open spec fn spec_octal_val(s: Seq<char>) -> int
    decreases s.len(),
{
    if s.len() == 0 {
        0
    } else {
        spec_octal_val(s.drop_last()) * 8 + (s.last() as int - '0' as int)
    }
}

/// Whether `s` is a well-formed umask string: non-empty, octal digits only,
/// and a value that fits a 16-bit file mode mask.
pub open spec fn spec_valid_umask(s: Seq<char>) -> bool {
    &&& s.len() > 0
    &&& forall|i: int| 0 <= i < s.len() ==> spec_is_octal_digit(s[i])
    &&& spec_octal_val(s) <= u16::MAX
}

/// An octal numeral never reads as a negative value.
pub proof fn lemma_octal_val_nonneg(s: Seq<char>)
    requires
        forall|i: int| 0 <= i < s.len() ==> spec_is_octal_digit(s[i]),
    ensures
        spec_octal_val(s) >= 0,
    decreases s.len(),
{
    if s.len() > 0 {
        lemma_octal_val_nonneg(s.drop_last());
    }
}

/// Extending an octal numeral with further digits never shrinks its value.
proof fn lemma_octal_val_extend(s: Seq<char>, i: int)
    requires
        forall|k: int| 0 <= k < s.len() ==> spec_is_octal_digit(s[k]),
        0 <= i <= s.len(),
    ensures
        spec_octal_val(s) >= spec_octal_val(s.take(i)),
    decreases s.len() - i,
{
    if i < s.len() {
        lemma_octal_val_extend(s, i + 1);
        assert(s.take(i + 1).drop_last() =~= s.take(i));
        assert(s.take(i + 1).last() == s[i]);
        lemma_octal_val_nonneg(s.take(i));
    } else {
        assert(s.take(i) =~= s);
    }
}

/// Reads `s` as an octal numeral for the file-mode creation mask.
/// Returns its value exactly when `s` is non-empty, contains octal digits
/// only, and fits 16 bits; `None` otherwise.
pub fn parse_umask(s: &str) -> (r: Option<u16>)
    ensures
        r is Some <==> spec_valid_umask(s@),
        r is Some ==> r->0 == spec_octal_val(s@),
{
    let n = s.unicode_len();
    if n == 0 {
        return None;
    }
    let mut value: u32 = 0;
    let mut i: usize = 0;
    while i < n
        invariant
            n == s@.len(),
            0 < n,
            i <= n,
            forall|k: int| 0 <= k < i ==> spec_is_octal_digit(s@[k]),
            value == spec_octal_val(s@.take(i as int)),
            value <= u16::MAX,
        decreases n - i,
    {
        let c = s.get_char(i);
        let code = c as u32;
        if code < 48 || code > 55 {
            proof {
                assert(!spec_is_octal_digit(s@[i as int]));
            }
            return None;
        }
        let d = code - 48;
        let next = value * 8 + d;
        proof {
            assert(s@.take(i as int + 1).drop_last() =~= s@.take(i as int));
            assert(s@.take(i as int + 1).last() == s@[i as int]);
        }
        if next > u16::MAX as u32 {
            proof {
                if forall|k: int| 0 <= k < s@.len() ==> spec_is_octal_digit(s@[k]) {
                    lemma_octal_val_extend(s@, i as int + 1);
                }
            }
            return None;
        }
        value = next;
        i += 1;
    }
    proof {
        assert(s@.take(n as int) =~= s@);
    }
    Some(value as u16)
}

} // verus!
