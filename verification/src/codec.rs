//! The written form of the configuration record: a JSON object with the
//! optional string fields `repo`, `branch`, `target_dir` and `template`, in
//! that order, absent fields omitted. Writing and reading are exact inverses;
//! text that is not in this form reads as the empty record.

use vstd::prelude::*;

use crate::cache::{empty_cache_view, Cache, CacheView};
use crate::jsontext::{
    esc, escape_append, match_prefix, parse_str_body, parse_string_body, lemma_parse_esc,
    starts_with,
};

verus! {

/// The name of one field, by its place in the fixed field order.
pub open spec fn key_seq(k: int) -> Seq<char> {
    if k == 0 {
        seq!['r', 'e', 'p', 'o']
    } else if k == 1 {
        seq!['b', 'r', 'a', 'n', 'c', 'h']
    } else if k == 2 {
        seq!['t', 'a', 'r', 'g', 'e', 't', '_', 'd', 'i', 'r']
    } else {
        seq!['t', 'e', 'm', 'p', 'l', 'a', 't', 'e']
    }
}

/// One field of the record, by its place in the fixed field order.
pub open spec fn field_of(v: CacheView, k: int) -> Option<Seq<char>> {
    if k == 0 {
        v.repo
    } else if k == 1 {
        v.branch
    } else if k == 2 {
        v.target_dir
    } else {
        v.template
    }
}

/// The record with one field replaced.
pub open spec fn set_field(v: CacheView, k: int, val: Seq<char>) -> CacheView {
    if k == 0 {
        CacheView { repo: Some(val), ..v }
    } else if k == 1 {
        CacheView { branch: Some(val), ..v }
    } else if k == 2 {
        CacheView { target_dir: Some(val), ..v }
    } else {
        CacheView { template: Some(val), ..v }
    }
}

/// The record with every field before the given place cleared.
pub open spec fn mask_from(v: CacheView, k: int) -> CacheView {
    CacheView {
        repo: if k <= 0 {
            v.repo
        } else {
            None
        },
        branch: if k <= 1 {
            v.branch
        } else {
            None
        },
        target_dir: if k <= 2 {
            v.target_dir
        } else {
            None
        },
        template: if k <= 3 {
            v.template
        } else {
            None
        },
    }
}

/// Whether any field at or after the given place is present.
pub open spec fn any_present(v: CacheView, k: int) -> bool
    decreases 4 - k,
{
    if k < 0 || k >= 4 {
        false
    } else {
        field_of(v, k) is Some || any_present(v, k + 1)
    }
}

/// The place of the first present field at or after the given place.
pub open spec fn first_present(v: CacheView, k: int) -> int
    decreases 4 - k,
{
    if k < 0 || k >= 4 {
        4
    } else if field_of(v, k) is Some {
        k
    } else {
        first_present(v, k + 1)
    }
}

/// How one pair opens in the written form: quoted key, colon, opening quote.
pub open spec fn pair_prefix(k: int) -> Seq<char> {
    seq!['"'] + key_seq(k) + seq!['"', ':', '"']
}

/// The written form of one present field.
pub open spec fn enc_pair(k: int, val: Seq<char>) -> Seq<char> {
    pair_prefix(k) + esc(val) + seq!['"']
}

/// The written form of the present fields at or after the given place,
/// joined by commas.
pub open spec fn enc_fields(v: CacheView, k: int) -> Seq<char>
    decreases 4 - k,
{
    if k < 0 || k >= 4 {
        Seq::empty()
    } else {
        match field_of(v, k) {
            Some(val) => enc_pair(k, val) + (if any_present(v, k + 1) {
                seq![','] + enc_fields(v, k + 1)
            } else {
                Seq::empty()
            }),
            None => enc_fields(v, k + 1),
        }
    }
}

/// The written form of a whole record.
pub open spec fn enc_cache(v: CacheView) -> Seq<char> {
    seq!['{'] + enc_fields(v, 0) + seq!['}']
}

/// Reads one pair for the given key: the opening must match that key
/// exactly, then a string body follows.
pub open spec fn parse_pair(s: Seq<char>, k: int) -> Option<(Seq<char>, Seq<char>)> {
    if starts_with(s, pair_prefix(k)) {
        parse_str_body(s.skip(pair_prefix(k).len() as int))
    } else {
        None
    }
}

/// Reads the pairs of an object body, keys in the fixed field order, each
/// optional, commas between pairs. Yields the record and the text after the
/// last pair.
pub open spec fn parse_fields(s: Seq<char>, k: int) -> Option<(CacheView, Seq<char>)>
    decreases 4 - k,
{
    if k < 0 || k >= 4 {
        None
    } else {
        match parse_pair(s, k) {
            Some(p) => {
                if p.1.len() > 0 && p.1[0] == ',' {
                    match parse_fields(p.1.drop_first(), k + 1) {
                        Some(q) => Some((set_field(q.0, k, p.0), q.1)),
                        None => None,
                    }
                } else {
                    Some((set_field(empty_cache_view(), k, p.0), p.1))
                }
            },
            None => parse_fields(s, k + 1),
        }
    }
}

/// Reads a whole record from its written form; anything else reads as
/// nothing.
pub open spec fn parse_cache(s: Seq<char>) -> Option<CacheView> {
    if s.len() >= 2 && s[0] == '{' {
        if s[1] == '}' {
            if s.len() == 2 {
                Some(empty_cache_view())
            } else {
                None
            }
        } else {
            match parse_fields(s.drop_first(), 0) {
                Some(p) => if p.1 == seq!['}'] {
                    Some(p.0)
                } else {
                    None
                },
                None => None,
            }
        }
    } else {
        None
    }
}

/// Two distinct keys cannot open the same text: their written openings
/// differ within the shorter of the two.
proof fn lemma_prefix_conflict(s: Seq<char>, j: int, k: int)
    requires
        0 <= j < 4,
        0 <= k < 4,
        j != k,
        starts_with(s, pair_prefix(j)),
    ensures
        !starts_with(s, pair_prefix(k)),
{
    let pj = pair_prefix(j);
    let pk = pair_prefix(k);
    let i: int = if (j == 2 && k == 3) || (j == 3 && k == 2) {
        2
    } else {
        1
    };
    assert(pj.len() >= 8 && pk.len() >= 8);
    assert(s[i] == pj[i]);
    assert(pj[i] != pk[i]);
    if starts_with(s, pk) {
        assert(s[i] == pk[i]);
        assert(false);
    }
}

/// Every field at or after an all-absent place is itself absent.
proof fn lemma_all_absent(v: CacheView, k: int)
    requires
        0 <= k,
        !any_present(v, k),
    ensures
        k <= 0 ==> v.repo is None,
        k <= 1 ==> v.branch is None,
        k <= 2 ==> v.target_dir is None,
        k <= 3 ==> v.template is None,
    decreases 4 - k,
{
    if k < 4 {
        lemma_all_absent(v, k + 1);
    }
}

/// An all-absent record writes no field text at all.
proof fn lemma_enc_fields_absent(v: CacheView, k: int)
    requires
        0 <= k,
        !any_present(v, k),
    ensures
        enc_fields(v, k) == Seq::<char>::empty(),
    decreases 4 - k,
{
    if k < 4 {
        lemma_enc_fields_absent(v, k + 1);
    }
}

/// Reading back the written form of one present field yields its value and
/// leaves exactly the trailing text.
proof fn lemma_parse_enc_pair(k: int, val: Seq<char>, rest: Seq<char>)
    requires
        0 <= k < 4,
    ensures
        parse_pair(enc_pair(k, val) + rest, k) == Some((val, rest)),
{
    let s = enc_pair(k, val) + rest;
    let pfx = pair_prefix(k);
    let body = esc(val) + seq!['"'] + rest;
    assert(s =~= pfx + body);
    assert(s.subrange(0, pfx.len() as int) =~= pfx);
    assert(starts_with(s, pfx));
    assert(s.skip(pfx.len() as int) =~= body);
    lemma_parse_esc(val, rest);
}

/// The written fields start with the opening of the first present key.
proof fn lemma_enc_fields_head(v: CacheView, k: int, rest: Seq<char>)
    requires
        0 <= k < 4,
        any_present(v, k),
    ensures
        ({
            let f = first_present(v, k);
            k <= f < 4 && field_of(v, f) is Some && enc_fields(v, k) == enc_fields(v, f)
                && starts_with(enc_fields(v, k) + rest, pair_prefix(f))
        }),
    decreases 4 - k,
{
    if field_of(v, k) is Some {
        let val = field_of(v, k)->0;
        let s = enc_fields(v, k) + rest;
        let pfx = pair_prefix(k);
        if any_present(v, k + 1) {
            assert(s =~= pfx + (esc(val) + seq!['"'] + (seq![','] + enc_fields(v, k + 1)) + rest));
        } else {
            assert(enc_fields(v, k) =~= pfx + (esc(val) + seq!['"']));
            assert(s =~= pfx + (esc(val) + seq!['"'] + rest));
        }
        assert(s.subrange(0, pfx.len() as int) =~= pfx);
    } else {
        assert(any_present(v, k + 1));
        lemma_enc_fields_head(v, k + 1, rest);
    }
}

/// Reading back the written present fields, followed by the closing brace,
/// yields exactly those fields.
proof fn lemma_parse_enc_fields(v: CacheView, k: int, rem: Seq<char>)
    requires
        0 <= k < 4,
        any_present(v, k),
        rem.len() > 0,
        rem[0] == '}',
    ensures
        parse_fields(enc_fields(v, k) + rem, k) == Some((mask_from(v, k), rem)),
    decreases 4 - k,
{
    let s = enc_fields(v, k) + rem;
    match field_of(v, k) {
        Some(val) => {
            if any_present(v, k + 1) {
                let inner = enc_fields(v, k + 1) + rem;
                let rest = seq![','] + inner;
                assert(s =~= enc_pair(k, val) + rest);
                lemma_parse_enc_pair(k, val, rest);
                assert(rest[0] == ',');
                assert(rest.drop_first() =~= inner);
                lemma_parse_enc_fields(v, k + 1, rem);
                assert(set_field(mask_from(v, k + 1), k, val) =~= mask_from(v, k));
            } else {
                assert(s =~= enc_pair(k, val) + rem);
                lemma_parse_enc_pair(k, val, rem);
                assert(rem[0] != ',');
                lemma_all_absent(v, k + 1);
                assert(set_field(empty_cache_view(), k, val) =~= mask_from(v, k));
            }
        },
        None => {
            assert(any_present(v, k + 1));
            lemma_parse_enc_fields(v, k + 1, rem);
            lemma_enc_fields_head(v, k + 1, rem);
            let f = first_present(v, k + 1);
            assert(starts_with(s, pair_prefix(f)));
            lemma_prefix_conflict(s, f, k);
            assert(parse_pair(s, k) is None);
            assert(mask_from(v, k) =~= mask_from(v, k + 1));
        },
    }
}

/// Writing a record and reading the text back yields the record again, for
/// every combination of present fields and every field value.
pub proof fn lemma_cache_round_trip(v: CacheView)
    ensures
        parse_cache(enc_cache(v)) == Some(v),
{
    let s = enc_cache(v);
    if any_present(v, 0) {
        let body = enc_fields(v, 0) + seq!['}'];
        assert(s =~= seq!['{'] + body);
        assert(s[0] == '{');
        assert(s.drop_first() =~= body);
        lemma_enc_fields_head(v, 0, seq!['}']);
        let f = first_present(v, 0);
        assert(body[0] == pair_prefix(f)[0]);
        assert(s[1] == body[0]);
        assert(s[1] != '}');
        lemma_parse_enc_fields(v, 0, seq!['}']);
        assert(mask_from(v, 0) =~= v);
    } else {
        lemma_all_absent(v, 0);
        lemma_enc_fields_absent(v, 0);
        assert(s =~= seq!['{', '}']);
        assert(s[0] == '{' && s[1] == '}' && s.len() == 2);
        assert(v =~= empty_cache_view());
    }
}

/// Whether any field at or after the given place is present.
fn any_present_exec(c: &Cache, k: usize) -> (b: bool)
    requires
        k <= 4,
    ensures
        b == any_present(c@, k as int),
    decreases 4 - k,
{
    if k >= 4 {
        false
    } else {
        let present = if k == 0 {
            c.repo.is_some()
        } else if k == 1 {
            c.branch.is_some()
        } else if k == 2 {
            c.target_dir.is_some()
        } else {
            c.template.is_some()
        };
        proof {
            assert(present == field_of(c@, k as int) is Some);
        }
        if present {
            true
        } else {
            any_present_exec(c, k + 1)
        }
    }
}

/// Appends the opening of one pair: quoted key, colon, opening quote.
fn append_pair_prefix(out: &mut String, k: usize)
    requires
        k <= 3,
    ensures
        final(out)@ == old(out)@ + pair_prefix(k as int),
{
    if k == 0 {
        out.append("\"repo\":\"");
        proof {
            reveal_strlit("\"repo\":\"");
            assert("\"repo\":\""@ =~= pair_prefix(0));
        }
    } else if k == 1 {
        out.append("\"branch\":\"");
        proof {
            reveal_strlit("\"branch\":\"");
            assert("\"branch\":\""@ =~= pair_prefix(1));
        }
    } else if k == 2 {
        out.append("\"target_dir\":\"");
        proof {
            reveal_strlit("\"target_dir\":\"");
            assert("\"target_dir\":\""@ =~= pair_prefix(2));
        }
    } else {
        out.append("\"template\":\"");
        proof {
            reveal_strlit("\"template\":\"");
            assert("\"template\":\""@ =~= pair_prefix(3));
        }
    }
}

/// Appends the written form of the present fields at or after the given
/// place.
fn encode_fields(out: &mut String, c: &Cache, k: usize)
    requires
        k <= 4,
    ensures
        final(out)@ == old(out)@ + enc_fields(c@, k as int),
    decreases 4 - k,
{
    if k >= 4 {
        proof {
            assert(old(out)@ + enc_fields(c@, k as int) =~= old(out)@);
        }
        return ;
    }
    let fld: &Option<String> = if k == 0 {
        &c.repo
    } else if k == 1 {
        &c.branch
    } else if k == 2 {
        &c.target_dir
    } else {
        &c.template
    };
    proof {
        assert(field_of(c@, k as int) == crate::cache::opt_str_view(*fld));
    }
    match fld {
        Some(val) => {
            append_pair_prefix(out, k);
            escape_append(out, val.as_str());
            out.append("\"");
            proof {
                reveal_strlit("\"");
                assert("\""@ =~= seq!['"']);
            }
            if any_present_exec(c, k + 1) {
                out.append(",");
                proof {
                    reveal_strlit(",");
                    assert(","@ =~= seq![',']);
                }
                encode_fields(out, c, k + 1);
                proof {
                    assert(out@ =~= old(out)@ + enc_fields(c@, k as int));
                }
            } else {
                proof {
                    assert(out@ =~= old(out)@ + enc_fields(c@, k as int));
                }
            }
        },
        None => {
            encode_fields(out, c, k + 1);
        },
    }
}

/// Writes a record in its canonical form.
pub fn encode_cache(c: &Cache) -> (r: String)
    ensures
        r@ == enc_cache(c@),
{
    let mut out = String::from_str("{");
    proof {
        reveal_strlit("{");
        assert(out@ =~= seq!['{']);
    }
    encode_fields(&mut out, c, 0);
    out.append("}");
    proof {
        reveal_strlit("}");
        assert("}"@ =~= seq!['}']);
        assert(out@ =~= enc_cache(c@));
    }
    out
}

/// The record with one field replaced.
fn set_field_exec(cv: Cache, k: usize, val: String) -> (r: Cache)
    requires
        k <= 3,
    ensures
        r@ == set_field(cv@, k as int, val@),
{
    let r = if k == 0 {
        Cache { repo: Some(val), ..cv }
    } else if k == 1 {
        Cache { branch: Some(val), ..cv }
    } else if k == 2 {
        Cache { target_dir: Some(val), ..cv }
    } else {
        Cache { template: Some(val), ..cv }
    };
    proof {
        assert(r@ =~= set_field(cv@, k as int, val@));
    }
    r
}

/// Reads the pairs of an object body from the given position, keys in the
/// fixed field order starting at the given place.
fn parse_fields_exec(s: &str, pos: usize, k: usize) -> (r: Option<(Cache, usize)>)
    requires
        k <= 4,
        pos <= s@.len(),
    ensures
        (match parse_fields(s@.skip(pos as int), k as int) {
            Some(p) => (r matches Some(q) && q.0@ == p.0 && q.1 <= s@.len() && s@.skip(q.1 as int)
                == p.1),
            None => r is None,
        }),
    decreases 4 - k,
{
    if k >= 4 {
        return None;
    }
    let lit: &str = if k == 0 {
        "\"repo\":\""
    } else if k == 1 {
        "\"branch\":\""
    } else if k == 2 {
        "\"target_dir\":\""
    } else {
        "\"template\":\""
    };
    proof {
        reveal_strlit("\"repo\":\"");
        reveal_strlit("\"branch\":\"");
        reveal_strlit("\"target_dir\":\"");
        reveal_strlit("\"template\":\"");
        assert(lit@ =~= pair_prefix(k as int));
    }
    if match_prefix(s, pos, lit) {
        let plen = lit.unicode_len();
        let n = s.unicode_len();
        proof {
            assert(s@.skip(pos as int).len() >= lit@.len());
            assert(pos + plen <= n);
            assert(s@.skip(pos as int).skip(plen as int) =~= s@.skip(pos as int + plen as int));
        }
        match parse_string_body(s, pos + plen) {
            Some(vp) => {
                let (val, npos) = vp;
                proof {
                    assert(parse_pair(s@.skip(pos as int), k as int) == Some(
                        (val@, s@.skip(npos as int)),
                    ));
                }
                if npos < n && s.get_char(npos) == ',' {
                    proof {
                        assert(s@.skip(npos as int)[0] == s@[npos as int]);
                        assert(s@.skip(npos as int).drop_first() =~= s@.skip(npos as int + 1));
                    }
                    match parse_fields_exec(s, npos + 1, k + 1) {
                        Some(qp) => {
                            let (cv, rpos) = qp;
                            let cv2 = set_field_exec(cv, k, val);
                            Some((cv2, rpos))
                        },
                        None => None,
                    }
                } else {
                    proof {
                        if s@.skip(npos as int).len() > 0 {
                            assert(s@.skip(npos as int)[0] == s@[npos as int]);
                        }
                    }
                    let cv = set_field_exec(Cache::empty(), k, val);
                    Some((cv, npos))
                }
            },
            None => parse_fields_exec(s, pos, k + 1),
        }
    } else {
        parse_fields_exec(s, pos, k + 1)
    }
}

/// Reads a record back from text. Text that is not the written form of a
/// record — a missing file's contents, or something another tool wrote —
/// reads as the empty record, so loading the remembered settings never fails.
pub fn decode_cache(s: &str) -> (r: Cache)
    ensures
        (match parse_cache(s@) {
            Some(v) => r@ == v,
            None => r@ == empty_cache_view(),
        }),
{
    let n = s.unicode_len();
    if n < 2 {
        return Cache::empty();
    }
    if s.get_char(0) != '{' {
        return Cache::empty();
    }
    if s.get_char(1) == '}' {
        return Cache::empty();
    }
    proof {
        assert(s@.drop_first() =~= s@.skip(1));
    }
    match parse_fields_exec(s, 1, 0) {
        Some(cp) => {
            let (cv, rpos) = cp;
            if rpos == n - 1 && s.get_char(rpos) == '}' {
                proof {
                    assert(s@.skip(rpos as int) =~= seq!['}']);
                }
                cv
            } else {
                proof {
                    if s@.skip(rpos as int) == seq!['}'] {
                        assert(s@.skip(rpos as int).len() == 1);
                        assert(rpos == n - 1);
                        assert(s@.skip(rpos as int)[0] == s@[rpos as int]);
                        assert(false);
                    }
                }
                Cache::empty()
            }
        },
        None => Cache::empty(),
    }
}

} // verus!
