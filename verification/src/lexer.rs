//! The code-pair lexer: turns the bytes of an ASCII DXF file into a run of
//! code pairs.
//!
//! Two logical lines make one pair: a code line, trimmed and read as a
//! decimal integer, and a value line, read as the kind the expected-type
//! table declares for that code.  A blank code line or a dangling code line
//! at the end of the input ends the run cleanly; comment pairs (code 999)
//! are checked and dropped.
use vstd::prelude::*;

use crate::double::{find_byte, find_byte_at, lemma_find_byte};
use crate::error::DxfError;
use crate::num::{int_parse_ok, int_parse_val, parse_i32, slice_part};
use crate::value::{parse_value, spec_parse_value, CodePair, PairV};

verus! {

/// The byte is ASCII whitespace as a line trim sees it: a space or one of
/// the five control characters from tab to carriage return.
pub open spec fn is_ws(b: u8) -> bool {
    b == 32 || (9 <= b <= 13)
}

/// `s` without its leading whitespace.
pub open spec fn trim_front(s: Seq<u8>) -> Seq<u8>
    decreases s.len(),
{
    if s.len() > 0 && is_ws(s[0]) {
        trim_front(s.skip(1))
    } else {
        s
    }
}

/// `s` without its trailing whitespace.
pub open spec fn trim_back(s: Seq<u8>) -> Seq<u8>
    decreases s.len(),
{
    if s.len() > 0 && is_ws(s.last()) {
        trim_back(s.drop_last())
    } else {
        s
    }
}

/// `s` without leading or trailing whitespace.
pub open spec fn trim_ws(s: Seq<u8>) -> Seq<u8> {
    trim_back(trim_front(s))
}

/// A line's content without a final carriage return, as the line splitter
/// hands it on.
pub open spec fn strip_cr(s: Seq<u8>) -> Seq<u8> {
    if s.len() > 0 && s.last() == 13 {
        s.drop_last()
    } else {
        s
    }
}

/// The logical lines of the input: split at each line feed, each line
/// keeping its content without the line feed and without a final carriage
/// return.  A last line without a line feed still counts.
pub open spec fn split_lines(s: Seq<u8>) -> Seq<Seq<u8>>
    decreases s.len(),
    via split_lines_decreases
{
    if s.len() == 0 {
        Seq::<Seq<u8>>::empty()
    } else {
        let e = find_byte(s, 10);
        let content = strip_cr(s.take(e));
        let rest = if e < s.len() {
            s.skip(e + 1)
        } else {
            Seq::<u8>::empty()
        };
        seq![content] + split_lines(rest)
    }
}

#[via_fn]
proof fn split_lines_decreases(s: Seq<u8>) {
    if s.len() > 0 {
        lemma_find_byte(s, 10);
    }
}

/// What a run of logical lines lexes to.  Lines pair up; a blank code line
/// or a code line with no value line after it ends the run cleanly.
pub open spec fn lex_lines(lines: Seq<Seq<u8>>) -> Result<Seq<PairV>, DxfError>
    decreases lines.len(),
{
    if lines.len() == 0 {
        Ok(Seq::<PairV>::empty())
    } else {
        let code_line = trim_ws(lines[0]);
        if code_line.len() == 0 {
            Ok(Seq::<PairV>::empty())
        } else if !(int_parse_ok(code_line) && i32::MIN <= int_parse_val(code_line) <= i32::MAX) {
            Err(DxfError::InvalidCode)
        } else {
            let code = int_parse_val(code_line);
            if lines.len() == 1 {
                Ok(Seq::<PairV>::empty())
            } else {
                match spec_parse_value(code, lines[1]) {
                    Err(e) => Err(e),
                    Ok(v) => match lex_lines(lines.skip(2)) {
                        Err(e) => Err(e),
                        Ok(rest) => if code == 999 {
                            Ok(rest)
                        } else {
                            Ok(seq![PairV { code, value: v }] + rest)
                        },
                    },
                }
            }
        }
    }
}

/// What a byte input lexes to.
pub open spec fn spec_lex(input: Seq<u8>) -> Result<Seq<PairV>, DxfError> {
    lex_lines(split_lines(input))
}

/// Tests one byte for whitespace.
fn is_ws_byte(b: u8) -> (r: bool)
    ensures
        r == is_ws(b),
{
    b == 32 || (9 <= b && b <= 13)
}

/// Trims whitespace off both ends of a line.
fn trim_line(s: &[u8]) -> (r: &[u8])
    ensures
        r@ == trim_ws(s@),
{
    let mut a: usize = 0;
    proof {
        assert(s@.skip(0) =~= s@);
    }
    while a < s.len() && is_ws_byte(s[a])
        invariant
            0 <= a <= s@.len(),
            trim_front(s@) == trim_front(s@.skip(a as int)),
        decreases s@.len() - a,
    {
        proof {
            assert(s@.skip(a as int).skip(1) =~= s@.skip(a + 1));
        }
        a = a + 1;
    }
    proof {
        assert(trim_front(s@) == s@.skip(a as int));
    }
    let mut b: usize = s.len();
    while b > a && is_ws_byte(s[b - 1])
        invariant
            a <= b <= s@.len(),
            trim_front(s@) == s@.skip(a as int),
            trim_back(s@.skip(a as int)) == trim_back(s@.subrange(a as int, b as int)),
        decreases b,
    {
        proof {
            assert(s@.subrange(a as int, b as int).drop_last() =~= s@.subrange(
                a as int,
                b - 1,
            ));
            assert(s@.subrange(a as int, b as int).last() == s@[b - 1]);
        }
        b = b - 1;
    }
    proof {
        if b == a {
            assert(s@.subrange(a as int, b as int).len() == 0);
        } else {
            assert(s@.subrange(a as int, b as int).last() == s@[b - 1]);
        }
        assert(trim_back(s@.subrange(a as int, b as int)) == s@.subrange(a as int, b as int));
    }
    slice_part(s, a, b)
}

/// Splits the input into its logical lines.
fn split_input_lines(input: &[u8]) -> (r: Vec<Vec<u8>>)
    ensures
        r@.map_values(|l: Vec<u8>| l@) == split_lines(input@),
{
    let mut lines: Vec<Vec<u8>> = Vec::new();
    let mut pos: usize = 0;
    proof {
        assert(input@.skip(0) =~= input@);
        assert(lines@.map_values(|l: Vec<u8>| l@) =~= Seq::<Seq<u8>>::empty());
        assert(Seq::<Seq<u8>>::empty() + split_lines(input@) =~= split_lines(input@));
    }
    while pos < input.len()
        invariant
            0 <= pos <= input@.len(),
            split_lines(input@) == lines@.map_values(|l: Vec<u8>| l@) + split_lines(
                input@.skip(pos as int),
            ),
        decreases input@.len() - pos,
    {
        let rest: &[u8] = slice_part(input, pos, input.len());
        let e: usize = find_byte_at(rest, 10);
        proof {
            lemma_find_byte(rest@, 10);
        }
        let mut content_end: usize = pos + e;
        if content_end > pos && input[content_end - 1] == 13 {
            content_end = content_end - 1;
        }
        let content_slice: &[u8] = slice_part(input, pos, content_end);
        let content: Vec<u8> = vstd::slice::slice_to_vec(content_slice);
        proof {
            let restv = input@.skip(pos as int);
            assert(restv.take(e as int) =~= input@.subrange(pos as int, pos + e));
            assert(strip_cr(restv.take(e as int)) =~= content@);
        }
        let ghost prev = lines@;
        lines.push(content);
        let new_pos: usize = if pos + e < input.len() {
            pos + e + 1
        } else {
            pos + e
        };
        proof {
            let restv = input@.skip(pos as int);
            let lv = lines@.map_values(|l: Vec<u8>| l@);
            assert(lv =~= prev.map_values(|l: Vec<u8>| l@).push(content@)) by {
                assert(lines@ == prev.push(content));
            }
            if (e as int) < restv.len() {
                assert(restv.skip(e + 1) =~= input@.skip(new_pos as int));
            } else {
                assert(new_pos == input@.len());
                assert(input@.skip(new_pos as int) =~= Seq::<u8>::empty());
            }
            assert(split_lines(restv) == seq![content@] + split_lines(input@.skip(new_pos as int)));
            assert(lv + split_lines(input@.skip(new_pos as int)) =~= prev.map_values(
                |l: Vec<u8>| l@,
            ) + split_lines(restv));
        }
        pos = new_pos;
    }
    proof {
        assert(split_lines(input@.skip(pos as int)) =~= Seq::<Seq<u8>>::empty());
        assert(lines@.map_values(|l: Vec<u8>| l@) + Seq::<Seq<u8>>::empty() =~= lines@.map_values(
            |l: Vec<u8>| l@,
        ));
    }
    lines
}

/// Lexes a whole input into its code pairs, or the first error the input
/// holds.
pub fn lex(input: &[u8]) -> (r: Result<Vec<CodePair>, DxfError>)
    ensures
        match r {
            Ok(pairs) => spec_lex(input@) == Ok::<Seq<PairV>, DxfError>(
                pairs@.map_values(|p: CodePair| p@),
            ) && forall|i: int| 0 <= i < pairs@.len() ==> (#[trigger] pairs@[i]).wf(),
            Err(e) => spec_lex(input@) == Err::<Seq<PairV>, DxfError>(e),
        },
{
    let lines: Vec<Vec<u8>> = split_input_lines(input);
    let ghost linesv = lines@.map_values(|l: Vec<u8>| l@);
    let mut pairs: Vec<CodePair> = Vec::new();
    let mut k: usize = 0;
    proof {
        assert(linesv.skip(0) =~= linesv);
        assert(pairs@.map_values(|p: CodePair| p@) =~= Seq::<PairV>::empty());
        match lex_lines(linesv) {
            Ok(ps) => {
                assert(Seq::<PairV>::empty() + ps =~= ps);
            },
            Err(_) => {},
        }
    }
    while k < lines.len()
        invariant
            0 <= k <= lines@.len(),
            linesv == lines@.map_values(|l: Vec<u8>| l@),
            spec_lex(input@) == lex_lines(linesv),
            lex_lines(linesv) == prepend_pairs(
                pairs@.map_values(|p: CodePair| p@),
                lex_lines(linesv.skip(k as int)),
            ),
            forall|i: int| 0 <= i < pairs@.len() ==> (#[trigger] pairs@[i]).wf(),
        decreases lines@.len() - k,
    {
        let ghost restv = linesv.skip(k as int);
        let ghost accv = pairs@.map_values(|p: CodePair| p@);
        proof {
            assert(restv[0] == linesv[k as int]);
            assert(linesv[k as int] == lines@[k as int]@);
        }
        let code_slice: &[u8] = trim_line(lines[k].as_slice());
        if code_slice.len() == 0 {
            proof {
                assert(lex_lines(restv) == Ok::<Seq<PairV>, DxfError>(Seq::<PairV>::empty()));
                assert(accv + Seq::<PairV>::empty() =~= accv);
            }
            return Ok(pairs);
        }
        let code: i32 = match parse_i32(code_slice) {
            Some(c) => c,
            None => {
                proof {
                    assert(lex_lines(restv) == Err::<Seq<PairV>, DxfError>(DxfError::InvalidCode));
                }
                return Err(DxfError::InvalidCode);
            },
        };
        if k + 1 >= lines.len() {
            proof {
                assert(restv.len() == 1);
                assert(lex_lines(restv) == Ok::<Seq<PairV>, DxfError>(Seq::<PairV>::empty()));
                assert(accv + Seq::<PairV>::empty() =~= accv);
            }
            return Ok(pairs);
        }
        proof {
            assert(restv[1] == linesv[k + 1]);
            assert(linesv[k + 1] == lines@[k + 1]@);
        }
        let value = match parse_value(code, lines[k + 1].as_slice()) {
            Ok(v) => v,
            Err(e) => {
                proof {
                    assert(lex_lines(restv) == Err::<Seq<PairV>, DxfError>(e));
                }
                return Err(e);
            },
        };
        proof {
            assert(restv.skip(2) =~= linesv.skip(k + 2));
        }
        if code != 999 {
            let pair: CodePair = CodePair::new(code, value);
            pairs.push(pair);
            proof {
                let pv = PairV { code: code as int, value: value@ };
                assert(pairs@.map_values(|p: CodePair| p@) =~= accv.push(pv));
                match lex_lines(linesv.skip(k + 2)) {
                    Ok(rest) => {
                        assert(lex_lines(restv) == Ok::<Seq<PairV>, DxfError>(seq![pv] + rest));
                        assert(accv + (seq![pv] + rest) =~= accv.push(pv) + rest);
                    },
                    Err(e) => {
                        assert(lex_lines(restv) == Err::<Seq<PairV>, DxfError>(e));
                    },
                }
            }
        } else {
            proof {
                match lex_lines(linesv.skip(k + 2)) {
                    Ok(rest) => {
                        assert(lex_lines(restv) == Ok::<Seq<PairV>, DxfError>(rest));
                    },
                    Err(e) => {
                        assert(lex_lines(restv) == Err::<Seq<PairV>, DxfError>(e));
                    },
                }
            }
        }
        k = k + 2;
    }
    proof {
        assert(linesv.skip(k as int) =~= Seq::<Seq<u8>>::empty());
        assert(lex_lines(linesv.skip(k as int)) == Ok::<Seq<PairV>, DxfError>(
            Seq::<PairV>::empty(),
        ));
        assert(pairs@.map_values(|p: CodePair| p@) + Seq::<PairV>::empty() =~= pairs@.map_values(
            |p: CodePair| p@,
        ));
    }
    Ok(pairs)
}

/// Joining pairs lexed so far onto what the rest of the lines lex to.
pub open spec fn prepend_pairs(acc: Seq<PairV>, rest: Result<Seq<PairV>, DxfError>) -> Result<
    Seq<PairV>,
    DxfError,
> {
    match rest {
        Ok(ps) => Ok(acc + ps),
        Err(e) => Err(e),
    }
}

} // verus!
