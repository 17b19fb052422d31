//! Text-level building blocks of the configuration file format: JSON string
//! escaping, its inverse, and prefix matching. The configuration record is a
//! JSON object of optional string fields, so the escaping here covers the
//! quote, the backslash, and control characters (written `\u00XX`).

use vstd::prelude::*;

verus! {

/// The lower-case hexadecimal digit for one value below sixteen.
pub open spec fn hex_char(n: u32) -> char
    recommends
        n < 16,
{
    if n < 10 {
        ((n + 48) as u32) as char
    } else {
        ((n + 87) as u32) as char
    }
}

/// The value of one lower-case hexadecimal digit, if the character is one.
pub open spec fn hex_val(c: char) -> Option<u32> {
    let v = c as u32;
    if 48 <= v && v <= 57 {
        Some((v - 48) as u32)
    } else if 97 <= v && v <= 102 {
        Some((v - 87) as u32)
    } else {
        None
    }
}

/// Reading back the digit written for a value below sixteen yields that value.
pub proof fn lemma_hex_char_val(n: u32)
    requires
        n < 16,
    ensures
        hex_val(hex_char(n)) == Some(n),
{
}

/// How one character is written inside a JSON string: quote and backslash
/// are escaped, control characters are written `\u00XX`, everything else
/// stands as itself.
pub open spec fn esc_char(c: char) -> Seq<char> {
    if c == '"' {
        seq!['\\', '"']
    } else if c == '\\' {
        seq!['\\', '\\']
    } else if (c as u32) < 32 {
        seq!['\\', 'u', '0', '0', hex_char((c as u32) / 16), hex_char((c as u32) % 16)]
    } else {
        seq![c]
    }
}

/// How a whole string value is written inside a JSON string literal.
pub open spec fn esc(s: Seq<char>) -> Seq<char>
    decreases s.len(),
{
    if s.len() == 0 {
        Seq::empty()
    } else {
        esc_char(s[0]) + esc(s.drop_first())
    }
}

/// Escaping one more character extends the escaped text by that character's
/// escape sequence.
pub proof fn lemma_esc_push(s: Seq<char>, c: char)
    ensures
        esc(s.push(c)) == esc(s) + esc_char(c),
    decreases s.len(),
{
    let t = s.push(c);
    if s.len() == 0 {
        assert(t[0] == c);
        assert(t.drop_first() =~= Seq::<char>::empty());
        assert(esc(t) == esc_char(c) + esc(Seq::<char>::empty()));
        assert(esc(Seq::<char>::empty()) == Seq::<char>::empty());
        assert(esc(s) == Seq::<char>::empty());
        assert(esc_char(c) + Seq::<char>::empty() =~= Seq::<char>::empty() + esc_char(c));
    } else {
        lemma_esc_push(s.drop_first(), c);
        assert(t[0] == s[0]);
        assert(t.drop_first() =~= s.drop_first().push(c));
        assert(esc(t) == esc_char(s[0]) + esc(s.drop_first().push(c)));
        assert(esc_char(s[0]) + (esc(s.drop_first()) + esc_char(c)) =~= (esc_char(s[0]) + esc(
            s.drop_first(),
        )) + esc_char(c));
    }
}

/// Prepends one decoded character to a parse result.
pub open spec fn cons_parsed(c: char, r: Option<(Seq<char>, Seq<char>)>) -> Option<
    (Seq<char>, Seq<char>),
> {
    match r {
        Some(p) => Some((seq![c] + p.0, p.1)),
        None => None,
    }
}

/// The value of four hexadecimal digits, if all four are ones.
pub open spec fn unhex4(a: char, b: char, c: char, d: char) -> Option<u32> {
    match (hex_val(a), hex_val(b), hex_val(c), hex_val(d)) {
        (Some(x), Some(y), Some(z), Some(w)) => Some(
            ((x * 4096 + y * 256 + z * 16 + w)) as u32,
        ),
        _ => None,
    }
}

/// Reads a JSON string body: the text after the opening quote. Yields the
/// decoded value and the remainder after the closing quote, or nothing when
/// the text is not a string body this format writes.
pub open spec fn parse_str_body(s: Seq<char>) -> Option<(Seq<char>, Seq<char>)>
    decreases s.len(),
{
    if s.len() == 0 {
        None
    } else if s[0] == '"' {
        Some((Seq::empty(), s.drop_first()))
    } else if s[0] == '\\' {
        if s.len() < 2 {
            None
        } else if s[1] == '"' {
            cons_parsed('"', parse_str_body(s.skip(2)))
        } else if s[1] == '\\' {
            cons_parsed('\\', parse_str_body(s.skip(2)))
        } else if s[1] == 'u' {
            if s.len() < 6 {
                None
            } else {
                match unhex4(s[2], s[3], s[4], s[5]) {
                    Some(code) => if code < 32 {
                        cons_parsed(code as char, parse_str_body(s.skip(6)))
                    } else {
                        None
                    },
                    None => None,
                }
            }
        } else {
            None
        }
    } else {
        cons_parsed(s[0], parse_str_body(s.drop_first()))
    }
}

/// Reading back one written character at the head of a string body decodes
/// exactly that character.
proof fn lemma_parse_esc_char(c: char, t: Seq<char>, val: Seq<char>, rem: Seq<char>)
    requires
        parse_str_body(t) == Some((val, rem)),
    ensures
        parse_str_body(esc_char(c) + t) == Some((seq![c] + val, rem)),
{
    let s = esc_char(c) + t;
    if c == '"' {
        assert(s =~= seq!['\\', '"'] + t);
        assert(s[0] == '\\' && s[1] == '"');
        assert(s.skip(2) =~= t);
        assert(parse_str_body(s) == cons_parsed('"', parse_str_body(t)));
    } else if c == '\\' {
        assert(s =~= seq!['\\', '\\'] + t);
        assert(s[0] == '\\' && s[1] == '\\');
        assert(s.skip(2) =~= t);
        assert(parse_str_body(s) == cons_parsed('\\', parse_str_body(t)));
    } else if (c as u32) < 32 {
        let n = c as u32;
        let hi = hex_char(n / 16);
        let lo = hex_char(n % 16);
        assert(s =~= seq!['\\', 'u', '0', '0', hi, lo] + t);
        assert(s[0] == '\\' && s[1] == 'u');
        assert(s.len() >= 6);
        assert(s[2] == '0' && s[3] == '0' && s[4] == hi && s[5] == lo);
        assert(hex_val('0') == Some(0u32));
        lemma_hex_char_val(n / 16);
        lemma_hex_char_val(n % 16);
        assert((n / 16) * 16 + n % 16 == n) by {
            vstd::arithmetic::div_mod::lemma_fundamental_div_mod(n as int, 16);
        }
        assert(unhex4(s[2], s[3], s[4], s[5]) == Some(n));
        assert((n as char) == c);
        assert(s.skip(6) =~= t);
        assert(parse_str_body(s) == cons_parsed(c, parse_str_body(t)));
    } else {
        assert(s =~= seq![c] + t);
        assert(s[0] == c);
        assert(s.drop_first() =~= t);
        assert(parse_str_body(s) == cons_parsed(c, parse_str_body(t)));
    }
}

/// Reading back an escaped value followed by its closing quote yields the
/// value and leaves exactly the trailing text.
pub proof fn lemma_parse_esc(v: Seq<char>, rest: Seq<char>)
    ensures
        parse_str_body(esc(v) + seq!['"'] + rest) == Some((v, rest)),
    decreases v.len(),
{
    let s = esc(v) + seq!['"'] + rest;
    if v.len() == 0 {
        assert(esc(v) == Seq::<char>::empty());
        assert(s =~= seq!['"'] + rest);
        assert(s[0] == '"');
        assert(s.drop_first() =~= rest);
        assert(v =~= Seq::<char>::empty());
    } else {
        let c = v[0];
        let tail = v.drop_first();
        lemma_parse_esc(tail, rest);
        let s2 = esc(tail) + seq!['"'] + rest;
        assert(esc(v) == esc_char(c) + esc(tail));
        assert(s =~= esc_char(c) + s2);
        lemma_parse_esc_char(c, s2, tail, rest);
        assert(seq![c] + tail =~= v);
    }
}

/// Relies on `String::push`: appends exactly one character.
#[verifier::external_body]
pub fn push_char(s: &mut String, c: char)
    ensures
        final(s)@ == old(s)@.push(c),
{
    s.push(c);
}

/// The lower-case hexadecimal digit for one value below sixteen.
fn hex_char_exec(n: u32) -> (r: char)
    requires
        n < 16,
    ensures
        r == hex_char(n),
{
    if n < 10 {
        ((n as u8) + 48) as char
    } else {
        ((n as u8) + 87) as char
    }
}

/// The value of one lower-case hexadecimal digit, if the character is one.
fn hex_val_exec(c: char) -> (r: Option<u32>)
    ensures
        r == hex_val(c),
{
    let v = c as u32;
    if 48 <= v && v <= 57 {
        Some(v - 48)
    } else if 97 <= v && v <= 102 {
        Some(v - 87)
    } else {
        None
    }
}

/// Appends a string value in its escaped written form.
pub fn escape_append(out: &mut String, v: &str)
    ensures
        final(out)@ == old(out)@ + esc(v@),
{
    let n = v.unicode_len();
    let mut i: usize = 0;
    proof {
        assert(v@.take(0) =~= Seq::<char>::empty());
        assert(old(out)@ + esc(v@.take(0)) =~= old(out)@);
    }
    while i < n
        invariant
            i <= n,
            n == v@.len(),
            out@ == old(out)@ + esc(v@.take(i as int)),
        decreases n - i,
    {
        let c = v.get_char(i);
        proof {
            lemma_esc_push(v@.take(i as int), c);
            assert(v@.take(i as int).push(c) =~= v@.take(i as int + 1));
        }
        if c == '"' {
            out.append("\\\"");
            proof {
                reveal_strlit("\\\"");
                assert("\\\""@ =~= esc_char(c));
                assert(out@ =~= old(out)@ + esc(v@.take(i as int + 1)));
            }
        } else if c == '\\' {
            out.append("\\\\");
            proof {
                reveal_strlit("\\\\");
                assert("\\\\"@ =~= esc_char(c));
                assert(out@ =~= old(out)@ + esc(v@.take(i as int + 1)));
            }
        } else if (c as u32) < 32 {
            let code = c as u32;
            out.append("\\u00");
            push_char(out, hex_char_exec(code / 16));
            push_char(out, hex_char_exec(code % 16));
            proof {
                reveal_strlit("\\u00");
                assert("\\u00"@ =~= seq!['\\', 'u', '0', '0']);
                assert(out@ =~= old(out)@ + esc(v@.take(i as int + 1)));
            }
        } else {
            push_char(out, c);
            proof {
                assert(esc_char(c) =~= seq![c]);
                assert(out@ =~= old(out)@ + esc(v@.take(i as int + 1)));
            }
        }
        i = i + 1;
    }
    proof {
        assert(v@.take(n as int) =~= v@);
    }
}

/// Whether one sequence begins with another.
pub open spec fn starts_with(s: Seq<char>, p: Seq<char>) -> bool {
    s.len() >= p.len() && s.subrange(0, p.len() as int) == p
}

/// Whether the text from the given position begins with the given literal.
pub fn match_prefix(s: &str, pos: usize, lit: &str) -> (b: bool)
    requires
        pos <= s@.len(),
    ensures
        b == starts_with(s@.skip(pos as int), lit@),
{
    let n = s.unicode_len();
    let m = lit.unicode_len();
    if n - pos < m {
        proof {
            assert(s@.skip(pos as int).len() < lit@.len());
        }
        return false;
    }
    let mut j: usize = 0;
    while j < m
        invariant
            j <= m,
            n == s@.len(),
            m == lit@.len(),
            pos + m <= n,
            forall|k: int| 0 <= k < j ==> s@[pos + k] == lit@[k],
        decreases m - j,
    {
        if s.get_char(pos + j) != lit.get_char(j) {
            proof {
                assert(s@.skip(pos as int)[j as int] == s@[pos + j]);
                assert(!starts_with(s@.skip(pos as int), lit@));
            }
            return false;
        }
        j = j + 1;
    }
    proof {
        assert(s@.skip(pos as int).subrange(0, m as int) =~= lit@);
    }
    true
}

/// Whether two strings hold the same characters.
pub fn str_eq(a: &str, b: &str) -> (r: bool)
    ensures
        r == (a@ == b@),
{
    let n = a.unicode_len();
    let m = b.unicode_len();
    if n != m {
        return false;
    }
    let r = match_prefix(a, 0, b);
    proof {
        assert(a@.skip(0) =~= a@);
        if r {
            assert(a@.subrange(0, m as int) =~= a@);
        }
        if a@ == b@ {
            assert(a@.subrange(0, m as int) =~= b@);
        }
    }
    r
}

/// Reads a JSON string body from the given position (just after an opening
/// quote). Yields the decoded value and the position just after the closing
/// quote, exactly when the written form is one this format produces.
pub fn parse_string_body(s: &str, pos: usize) -> (r: Option<(String, usize)>)
    requires
        pos <= s@.len(),
    ensures
        (match parse_str_body(s@.skip(pos as int)) {
            Some(p) => (r matches Some(q) && q.0@ == p.0 && q.1 <= s@.len() && s@.skip(q.1 as int)
                == p.1),
            None => r is None,
        }),
{
    let ghost orig = s@.skip(pos as int);
    let n = s.unicode_len();
    let mut cur = pos;
    let mut acc = String::new();
    proof {
        match parse_str_body(orig) {
            Some(p) => {
                assert(Seq::<char>::empty() + p.0 =~= p.0);
            },
            None => {},
        }
    }
    loop
        invariant
            pos <= cur <= n,
            n == s@.len(),
            orig == s@.skip(pos as int),
            (match parse_str_body(s@.skip(cur as int)) {
                Some(p) => (parse_str_body(orig) matches Some(q) && q.0 == acc@ + p.0 && q.1
                    == p.1),
                None => parse_str_body(orig) is None,
            }),
        decreases n - cur,
    {
        let ghost suf = s@.skip(cur as int);
        if cur == n {
            proof {
                assert(suf.len() == 0);
                assert(parse_str_body(suf) is None);
            }
            return None;
        }
        let c = s.get_char(cur);
        proof {
            assert(suf[0] == c);
            assert(suf.len() > 0);
        }
        if c == '"' {
            proof {
                assert(suf.drop_first() =~= s@.skip(cur as int + 1));
                assert(parse_str_body(suf) == Some((Seq::<char>::empty(), suf.drop_first())));
                assert(acc@ + Seq::<char>::empty() =~= acc@);
            }
            return Some((acc, cur + 1));
        } else if c == '\\' {
            if n - cur < 2 {
                proof {
                    assert(suf.len() < 2);
                    assert(parse_str_body(suf) is None);
                }
                return None;
            }
            let c2 = s.get_char(cur + 1);
            proof {
                assert(suf[1] == c2);
                assert(suf.len() >= 2);
            }
            if c2 == '"' {
                proof {
                    assert(suf.skip(2) =~= s@.skip(cur as int + 2));
                    step_accumulate(acc@, '"', suf, s@.skip(cur as int + 2), orig);
                }
                push_char(&mut acc, '"');
                cur = cur + 2;
            } else if c2 == '\\' {
                proof {
                    assert(suf.skip(2) =~= s@.skip(cur as int + 2));
                    step_accumulate(acc@, '\\', suf, s@.skip(cur as int + 2), orig);
                }
                push_char(&mut acc, '\\');
                cur = cur + 2;
            } else if c2 == 'u' {
                if n - cur < 6 {
                    proof {
                        assert(suf.len() < 6);
                        assert(parse_str_body(suf) is None);
                    }
                    return None;
                }
                proof {
                    assert(suf.len() >= 6);
                    assert(suf[2] == s@[cur as int + 2]);
                    assert(suf[3] == s@[cur as int + 3]);
                    assert(suf[4] == s@[cur as int + 4]);
                    assert(suf[5] == s@[cur as int + 5]);
                }
                let h1 = hex_val_exec(s.get_char(cur + 2));
                let h2 = hex_val_exec(s.get_char(cur + 3));
                let h3 = hex_val_exec(s.get_char(cur + 4));
                let h4 = hex_val_exec(s.get_char(cur + 5));
                match (h1, h2, h3, h4) {
                    (Some(x), Some(y), Some(z), Some(w)) => {
                        let code = x * 4096 + y * 256 + z * 16 + w;
                        proof {
                            assert(unhex4(suf[2], suf[3], suf[4], suf[5]) == Some(code));
                        }
                        if code >= 32 {
                            proof {
                                assert(parse_str_body(suf) is None);
                            }
                            return None;
                        }
                        let decoded = (code as u8) as char;
                        proof {
                            assert(decoded as u32 == code);
                            assert(decoded == code as char);
                            assert(suf.skip(6) =~= s@.skip(cur as int + 6));
                            step_accumulate(acc@, decoded, suf, s@.skip(cur as int + 6), orig);
                        }
                        push_char(&mut acc, decoded);
                        cur = cur + 6;
                    },
                    _ => {
                        proof {
                            assert(unhex4(suf[2], suf[3], suf[4], suf[5]) is None);
                            assert(parse_str_body(suf) is None);
                        }
                        return None;
                    },
                }
            } else {
                proof {
                    assert(parse_str_body(suf) is None);
                }
                return None;
            }
        } else {
            proof {
                assert(suf.drop_first() =~= s@.skip(cur as int + 1));
                step_accumulate(acc@, c, suf, s@.skip(cur as int + 1), orig);
            }
            push_char(&mut acc, c);
            cur = cur + 1;
        }
    }
}

/// One decoding step moves a character from the pending suffix into the
/// accumulator without changing what the whole text parses to.
proof fn step_accumulate(acc: Seq<char>, c: char, suf: Seq<char>, next: Seq<char>, orig: Seq<char>)
    requires
        parse_str_body(suf) == cons_parsed(c, parse_str_body(next)),
        (match parse_str_body(suf) {
            Some(p) => (parse_str_body(orig) matches Some(q) && q.0 == acc + p.0 && q.1 == p.1),
            None => parse_str_body(orig) is None,
        }),
    ensures
        (match parse_str_body(next) {
            Some(p) => (parse_str_body(orig) matches Some(q) && q.0 == acc.push(c) + p.0 && q.1
                == p.1),
            None => parse_str_body(orig) is None,
        }),
{
    match parse_str_body(next) {
        Some(p) => {
            assert(parse_str_body(suf) == Some((seq![c] + p.0, p.1)));
            assert(acc + (seq![c] + p.0) =~= acc.push(c) + p.0);
        },
        None => {
        },
    }
}

} // verus!
