//! The catalog's on-disk representation: a compact structured document with
//! one field `available` holding the models in order; the server-mode
//! download location is written under a hyphenated key, all other keys use
//! first-letter-lowercase names.
//!
//! The writer emits a canonical form: no whitespace between tokens, string
//! values quoted with `"` and `\` escaped by a backslash.  The reader
//! accepts exactly that canonical form, and reading back what the writer
//! produced yields the original catalog — the round-trip law at the bottom
//! of this file.

use vstd::prelude::*;
use vstd::string::*;

use crate::catalog::Model;
use crate::catalog::Models;
use crate::catalog::ModelView;
use crate::catalog::Parameter;
use crate::catalog::ParameterView;

verus! {

/// The escaped form of one character inside a quoted string.
pub open spec fn spec_esc_char(c: char) -> Seq<char> {
    if c == '"' {
        seq!['\\', '"']
    } else if c == '\\' {
        seq!['\\', '\\']
    } else {
        seq![c]
    }
}

/// The escaped form of a whole string body.
pub open spec fn spec_esc(s: Seq<char>) -> Seq<char>
    decreases s.len(),
{
    if s.len() == 0 {
        Seq::<char>::empty()
    } else {
        spec_esc_char(s[0]) + spec_esc(s.drop_first())
    }
}

/// A quoted, escaped string value.
pub open spec fn spec_enc_string(s: Seq<char>) -> Seq<char> {
    seq!['"'] + spec_esc(s) + seq!['"']
}

proof fn lemma_esc_push(s: Seq<char>, c: char)
    ensures
        spec_esc(s.push(c)) == spec_esc(s) + spec_esc_char(c),
    decreases s.len(),
{
    if s.len() == 0 {
        assert(s.push(c)[0] == c);
        assert(s.push(c).drop_first() =~= Seq::<char>::empty());
        assert(spec_esc(s.push(c).drop_first()) == Seq::<char>::empty());
        assert(spec_esc(s.push(c)) =~= spec_esc(s) + spec_esc_char(c));
    } else {
        assert(s.push(c).drop_first() =~= s.drop_first().push(c));
        lemma_esc_push(s.drop_first(), c);
        assert(spec_esc(s.push(c)) =~= spec_esc(s) + spec_esc_char(c));
    }
}

/// Appends the escaped form of `s` to `out`.
fn append_escaped(out: &mut String, s: &String)
    ensures
        final(out)@ == old(out)@ + spec_esc(s@),
{
    let t = s.as_str();
    let n = t.unicode_len();
    let mut i: usize = 0;
    proof {
        assert(out@ =~= old(out)@ + spec_esc(s@.take(0)));
    }
    while i < n
        invariant
            n == s@.len(),
            t@ == s@,
            i <= n,
            out@ == old(out)@ + spec_esc(s@.take(i as int)),
        decreases n - i,
    {
        let c = t.get_char(i);
        if c == '"' {
            out.append("\\\"");
            proof {
                reveal_strlit("\\\"");
                assert(("\\\"")@ =~= spec_esc_char(c));
            }
        } else if c == '\\' {
            out.append("\\\\");
            proof {
                reveal_strlit("\\\\");
                assert(("\\\\")@ =~= spec_esc_char(c));
            }
        } else {
            let piece = t.substring_char(i, i + 1);
            out.append(piece);
            proof {
                assert(piece@ =~= spec_esc_char(c));
            }
        }
        proof {
            lemma_esc_push(s@.take(i as int), c);
            assert(s@.take(i as int).push(c) =~= s@.take(i + 1));
        }
        i += 1;
    }
    proof {
        assert(s@.take(n as int) =~= s@);
    }
}

/// Appends a quoted, escaped string value to `out`.
fn append_quoted(out: &mut String, s: &String)
    ensures
        final(out)@ == old(out)@ + spec_enc_string(s@),
{
    out.append("\"");
    append_escaped(out, s);
    out.append("\"");
    proof {
        reveal_strlit("\"");
        assert(("\"")@ =~= seq!['"']);
        assert(out@ =~= old(out)@ + spec_enc_string(s@));
    }
}

/// What remains of `t` after the expected literal `lit`, when `t` starts
/// with it.
pub open spec fn spec_parse_lit(t: Seq<char>, lit: Seq<char>) -> Option<Seq<char>> {
    if lit.len() <= t.len() && t.take(lit.len() as int) == lit {
        Some(t.skip(lit.len() as int))
    } else {
        None
    }
}

/// Parses a string body after its opening quote: the value, unescaped, and
/// what remains after the closing quote.
pub open spec fn spec_parse_str_body(t: Seq<char>) -> Option<(Seq<char>, Seq<char>)>
    decreases t.len(),
{
    if t.len() == 0 {
        None
    } else if t[0] == '"' {
        Some((Seq::<char>::empty(), t.drop_first()))
    } else if t[0] == '\\' {
        if t.len() < 2 || !(t[1] == '"' || t[1] == '\\') {
            None
        } else {
            match spec_parse_str_body(t.skip(2)) {
                None => None,
                Some((v, rest)) => Some((seq![t[1]] + v, rest)),
            }
        }
    } else {
        match spec_parse_str_body(t.drop_first()) {
            None => None,
            Some((v, rest)) => Some((seq![t[0]] + v, rest)),
        }
    }
}

/// Parses a quoted string value: the value and what remains after it.
pub open spec fn spec_parse_string(t: Seq<char>) -> Option<(Seq<char>, Seq<char>)> {
    if t.len() == 0 || t[0] != '"' {
        None
    } else {
        spec_parse_str_body(t.drop_first())
    }
}

/// Reading a string body inverts escaping: the escaped form of any value,
/// followed by the closing quote and anything after it, reads back as that
/// value with exactly the tail remaining.
proof fn lemma_parse_esc(s: Seq<char>, rest: Seq<char>)
    ensures
        spec_parse_str_body(spec_esc(s) + seq!['"'] + rest) == Some((s, rest)),
    decreases s.len(),
{
    let t = spec_esc(s) + seq!['"'] + rest;
    if s.len() == 0 {
        assert(t[0] == '"');
        assert(t.drop_first() =~= rest);
        assert(s =~= Seq::<char>::empty());
    } else {
        lemma_parse_esc(s.drop_first(), rest);
        let c = s[0];
        if c == '"' || c == '\\' {
            assert(t[0] == '\\' && t[1] == c);
            assert(t.skip(2) =~= spec_esc(s.drop_first()) + seq!['"'] + rest);
            assert(seq![c] + s.drop_first() =~= s);
        } else {
            assert(t[0] == c);
            assert(t.drop_first() =~= spec_esc(s.drop_first()) + seq!['"'] + rest);
            assert(seq![c] + s.drop_first() =~= s);
        }
    }
}

/// Reading a quoted string inverts writing one.
proof fn lemma_parse_string_enc(s: Seq<char>, rest: Seq<char>)
    ensures
        spec_parse_string(spec_enc_string(s) + rest) == Some((s, rest)),
{
    let t = spec_enc_string(s) + rest;
    assert(t[0] == '"');
    assert(t.drop_first() =~= spec_esc(s) + seq!['"'] + rest);
    lemma_parse_esc(s, rest);
}

/// Consumes the literal `lit` at position `i` of `s`, returning the
/// position after it, or `None` when `s` does not continue with `lit`.
fn expect_lit(s: &str, i: usize, n: usize, lit: &str) -> (r: Option<usize>)
    requires
        n == s@.len(),
        i <= n,
    ensures
        match r {
            Some(j) => {
                &&& i <= j <= n
                &&& j == i + lit@.len()
                &&& spec_parse_lit(s@.skip(i as int), lit@) == Some(s@.skip(j as int))
            },
            None => spec_parse_lit(s@.skip(i as int), lit@) is None,
        },
{
    let m = lit.unicode_len();
    if m > n - i {
        return None;
    }
    let mut k: usize = 0;
    while k < m
        invariant
            n == s@.len(),
            m == lit@.len(),
            i + m <= n,
            k <= m,
            forall|q: int| 0 <= q < k ==> s@[i + q] == lit@[q],
        decreases m - k,
    {
        if s.get_char(i + k) != lit.get_char(k) {
            proof {
                let t = s@.skip(i as int);
                assert(t.take(m as int)[k as int] != lit@[k as int]);
            }
            return None;
        }
        k += 1;
    }
    proof {
        let t = s@.skip(i as int);
        assert(t.take(m as int) =~= lit@);
        assert(t.skip(m as int) =~= s@.skip((i + m) as int));
    }
    Some(i + m)
}

/// Parses a quoted string value at position `i` of `s`: the value and the
/// position after its closing quote.
fn parse_string_at(s: &str, i: usize, n: usize) -> (r: Option<(String, usize)>)
    requires
        n == s@.len(),
        i <= n,
    ensures
        match r {
            Some((v, j)) => {
                &&& i < j <= n
                &&& spec_parse_string(s@.skip(i as int)) == Some((v@, s@.skip(j as int)))
            },
            None => spec_parse_string(s@.skip(i as int)) is None,
        },
{
    if i >= n || s.get_char(i) != '"' {
        return None;
    }
    let mut acc = String::new();
    let mut j: usize = i + 1;
    proof {
        assert(s@.skip(i as int)[0] == '"');
        assert(s@.skip(i as int).drop_first() =~= s@.skip(j as int));
        match spec_parse_str_body(s@.skip(j as int)) {
            Some((v, rest)) => {
                assert(Seq::<char>::empty() + v =~= v);
            },
            None => {},
        }
    }
    loop
        invariant
            n == s@.len(),
            i < j <= n,
            spec_parse_string(s@.skip(i as int)) == (match spec_parse_str_body(
                s@.skip(j as int),
            ) {
                Some((v, rest)) => Some::<(Seq<char>, Seq<char>)>((acc@ + v, rest)),
                None => None::<(Seq<char>, Seq<char>)>,
            }),
        decreases n - j,
    {
        let ghost t = s@.skip(j as int);
        if j >= n {
            return None;
        }
        let c = s.get_char(j);
        if c == '"' {
            proof {
                assert(t[0] == '"');
                assert(t.drop_first() =~= s@.skip(j + 1));
                assert(acc@ + Seq::<char>::empty() =~= acc@);
            }
            return Some((acc, j + 1));
        } else if c == '\\' {
            if j + 1 >= n {
                proof {
                    assert(t[0] == '\\' && t.len() < 2);
                }
                return None;
            }
            let e = s.get_char(j + 1);
            if e == '"' || e == '\\' {
                let ghost acc0 = acc@;
                let piece = s.substring_char(j + 1, j + 2);
                acc.append(piece);
                proof {
                    assert(t[0] == '\\' && t[1] == e);
                    assert(t.skip(2) =~= s@.skip(j + 2));
                    assert(piece@ =~= seq![e]);
                    match spec_parse_str_body(s@.skip(j + 2)) {
                        Some((v, rest)) => {
                            assert(acc0 + (seq![e] + v) =~= acc@ + v);
                        },
                        None => {},
                    }
                }
                j += 2;
            } else {
                proof {
                    assert(t[0] == '\\' && t.len() >= 2 && !(t[1] == '"' || t[1] == '\\'));
                }
                return None;
            }
        } else {
            let ghost acc0 = acc@;
            let piece = s.substring_char(j, j + 1);
            acc.append(piece);
            proof {
                assert(t[0] == c);
                assert(t.drop_first() =~= s@.skip(j + 1));
                assert(piece@ =~= seq![c]);
                match spec_parse_str_body(s@.skip(j + 1)) {
                    Some((v, rest)) => {
                        assert(acc0 + (seq![c] + v) =~= acc@ + v);
                    },
                    None => {},
                }
            }
            j += 1;
        }
    }
}

/// The views of a sequence of parameters.
pub open spec fn spec_param_views(ps: Seq<Parameter>) -> Seq<ParameterView> {
    ps.map_values(|p: Parameter| p@)
}

/// The views of a sequence of models.
pub open spec fn spec_model_views(ms: Seq<Model>) -> Seq<ModelView> {
    ms.map_values(|m: Model| m@)
}

/// One parameter on the wire: its two fields as quoted strings, in order.
pub open spec fn spec_enc_param(p: ParameterView) -> Seq<char> {
    ("{\"switch\":")@ + spec_enc_string(p.switch) + (",\"explanation\":")@ + spec_enc_string(
        p.explanation,
    ) + ("}")@
}

/// The continuation of a parameter list: `,` and a parameter for each
/// remaining element.
pub open spec fn spec_enc_params_rest(ps: Seq<ParameterView>) -> Seq<char>
    decreases ps.len(),
{
    if ps.len() == 0 {
        Seq::<char>::empty()
    } else {
        seq![','] + spec_enc_param(ps[0]) + spec_enc_params_rest(ps.drop_first())
    }
}

/// A whole parameter list in brackets, comma-separated.
pub open spec fn spec_enc_params_list(ps: Seq<ParameterView>) -> Seq<char> {
    if ps.len() == 0 {
        seq!['['] + seq![']']
    } else {
        seq!['['] + spec_enc_param(ps[0]) + spec_enc_params_rest(ps.drop_first()) + seq![']']
    }
}

/// One model on the wire: its four string fields as quoted strings — the
/// server-mode location under its hyphenated key — then the parameter list.
pub open spec fn spec_enc_model(m: ModelView) -> Seq<char> {
    ("{\"name\":")@ + spec_enc_string(m.name) + (",\"version\":")@ + spec_enc_string(m.version)
        + (",\"url\":")@ + spec_enc_string(m.url) + (",\"server-url\":")@ + spec_enc_string(
        m.server_url,
    ) + (",\"parameters\":")@ + spec_enc_params_list(m.parameters) + ("}")@
}

/// The continuation of a model list.
pub open spec fn spec_enc_models_rest(ms: Seq<ModelView>) -> Seq<char>
    decreases ms.len(),
{
    if ms.len() == 0 {
        Seq::<char>::empty()
    } else {
        seq![','] + spec_enc_model(ms[0]) + spec_enc_models_rest(ms.drop_first())
    }
}

/// A whole model list in brackets, comma-separated.
pub open spec fn spec_enc_models_list(ms: Seq<ModelView>) -> Seq<char> {
    if ms.len() == 0 {
        seq!['['] + seq![']']
    } else {
        seq!['['] + spec_enc_model(ms[0]) + spec_enc_models_rest(ms.drop_first()) + seq![']']
    }
}

/// A whole catalog document: the model list under the one field
/// `available`, and nothing after the closing brace.
pub open spec fn spec_enc_catalog(c: Seq<ModelView>) -> Seq<char> {
    ("{\"available\":")@ + spec_enc_models_list(c) + ("}")@
}

/// Parses one parameter object: its value and what remains after it.
pub open spec fn spec_parse_param(t: Seq<char>) -> Option<(ParameterView, Seq<char>)> {
    match spec_parse_lit(t, ("{\"switch\":")@) {
        None => None,
        Some(t1) => match spec_parse_string(t1) {
            None => None,
            Some((sw, t2)) => match spec_parse_lit(t2, (",\"explanation\":")@) {
                None => None,
                Some(t3) => match spec_parse_string(t3) {
                    None => None,
                    Some((ex, t4)) => match spec_parse_lit(t4, ("}")@) {
                        None => None,
                        Some(t5) => Some((ParameterView { switch: sw, explanation: ex }, t5)),
                    },
                },
            },
        },
    }
}

/// Parses the continuation of a parameter list: after one element, either
/// the closing bracket or a comma and a further element, repeatedly.
pub open spec fn spec_parse_params_rest(t: Seq<char>) -> Option<(Seq<ParameterView>, Seq<char>)>
    decreases t.len(),
{
    if t.len() == 0 {
        None
    } else if t[0] == ']' {
        Some((Seq::<ParameterView>::empty(), t.drop_first()))
    } else if t[0] == ',' {
        match spec_parse_param(t.drop_first()) {
            None => None,
            Some((p, t2)) => if t2.len() < t.len() {
                match spec_parse_params_rest(t2) {
                    None => None,
                    Some((ps, t3)) => Some((seq![p] + ps, t3)),
                }
            } else {
                None
            },
        }
    } else {
        None
    }
}

/// Parses a whole parameter list in brackets.
pub open spec fn spec_parse_params_list(t: Seq<char>) -> Option<(Seq<ParameterView>, Seq<char>)> {
    if t.len() == 0 || t[0] != '[' {
        None
    } else {
        let t1 = t.drop_first();
        if t1.len() > 0 && t1[0] == ']' {
            Some((Seq::<ParameterView>::empty(), t1.drop_first()))
        } else {
            match spec_parse_param(t1) {
                None => None,
                Some((p, t2)) => if t2.len() < t.len() {
                    match spec_parse_params_rest(t2) {
                        None => None,
                        Some((ps, t3)) => Some((seq![p] + ps, t3)),
                    }
                } else {
                    None
                },
            }
        }
    }
}

/// Parses one model object: its value and what remains after it.
pub open spec fn spec_parse_model(t: Seq<char>) -> Option<(ModelView, Seq<char>)> {
    match spec_parse_lit(t, ("{\"name\":")@) {
        None => None,
        Some(t1) => match spec_parse_string(t1) {
            None => None,
            Some((name, t2)) => match spec_parse_lit(t2, (",\"version\":")@) {
                None => None,
                Some(t3) => match spec_parse_string(t3) {
                    None => None,
                    Some((version, t4)) => match spec_parse_lit(t4, (",\"url\":")@) {
                        None => None,
                        Some(t5) => match spec_parse_string(t5) {
                            None => None,
                            Some((url, t6)) => match spec_parse_lit(t6, (",\"server-url\":")@) {
                                None => None,
                                Some(t7) => match spec_parse_string(t7) {
                                    None => None,
                                    Some((server_url, t8)) => match spec_parse_lit(
                                        t8,
                                        (",\"parameters\":")@,
                                    ) {
                                        None => None,
                                        Some(t9) => match spec_parse_params_list(t9) {
                                            None => None,
                                            Some((ps, t10)) => match spec_parse_lit(t10, ("}")@) {
                                                None => None,
                                                Some(t11) => Some(
                                                    (
                                                        ModelView {
                                                            name: name,
                                                            version: version,
                                                            url: url,
                                                            server_url: server_url,
                                                            parameters: ps,
                                                        },
                                                        t11,
                                                    ),
                                                ),
                                            },
                                        },
                                    },
                                },
                            },
                        },
                    },
                },
            },
        },
    }
}

/// Parses the continuation of a model list.
pub open spec fn spec_parse_models_rest(t: Seq<char>) -> Option<(Seq<ModelView>, Seq<char>)>
    decreases t.len(),
{
    if t.len() == 0 {
        None
    } else if t[0] == ']' {
        Some((Seq::<ModelView>::empty(), t.drop_first()))
    } else if t[0] == ',' {
        match spec_parse_model(t.drop_first()) {
            None => None,
            Some((m, t2)) => if t2.len() < t.len() {
                match spec_parse_models_rest(t2) {
                    None => None,
                    Some((ms, t3)) => Some((seq![m] + ms, t3)),
                }
            } else {
                None
            },
        }
    } else {
        None
    }
}

/// Parses a whole model list in brackets.
pub open spec fn spec_parse_models_list(t: Seq<char>) -> Option<(Seq<ModelView>, Seq<char>)> {
    if t.len() == 0 || t[0] != '[' {
        None
    } else {
        let t1 = t.drop_first();
        if t1.len() > 0 && t1[0] == ']' {
            Some((Seq::<ModelView>::empty(), t1.drop_first()))
        } else {
            match spec_parse_model(t1) {
                None => None,
                Some((m, t2)) => if t2.len() < t.len() {
                    match spec_parse_models_rest(t2) {
                        None => None,
                        Some((ms, t3)) => Some((seq![m] + ms, t3)),
                    }
                } else {
                    None
                },
            }
        }
    }
}

/// Parses a whole catalog document; the document must end right after the
/// closing brace.
pub open spec fn spec_parse_catalog(t: Seq<char>) -> Option<Seq<ModelView>> {
    match spec_parse_lit(t, ("{\"available\":")@) {
        None => None,
        Some(t1) => match spec_parse_models_list(t1) {
            None => None,
            Some((ms, t2)) => match spec_parse_lit(t2, ("}")@) {
                None => None,
                Some(t3) => if t3.len() == 0 {
                    Some(ms)
                } else {
                    None
                },
            },
        },
    }
}

/// A literal at the head of the input is consumed exactly.
proof fn lemma_parse_lit_prefix(lit: Seq<char>, rest: Seq<char>)
    ensures
        spec_parse_lit(lit + rest, lit) == Some(rest),
{
    assert((lit + rest).take(lit.len() as int) =~= lit);
    assert((lit + rest).skip(lit.len() as int) =~= rest);
}

/// Reading one parameter inverts writing one.
proof fn lemma_parse_param_enc(p: ParameterView, rest: Seq<char>)
    ensures
        spec_parse_param(spec_enc_param(p) + rest) == Some((p, rest)),
{
    let t = spec_enc_param(p) + rest;
    let r1 = spec_enc_string(p.switch) + (",\"explanation\":")@ + spec_enc_string(p.explanation)
        + ("}")@ + rest;
    assert(t =~= ("{\"switch\":")@ + r1);
    lemma_parse_lit_prefix(("{\"switch\":")@, r1);
    let r2 = (",\"explanation\":")@ + spec_enc_string(p.explanation) + ("}")@ + rest;
    assert(r1 =~= spec_enc_string(p.switch) + r2);
    lemma_parse_string_enc(p.switch, r2);
    let r3 = spec_enc_string(p.explanation) + ("}")@ + rest;
    assert(r2 =~= (",\"explanation\":")@ + r3);
    lemma_parse_lit_prefix((",\"explanation\":")@, r3);
    let r4 = ("}")@ + rest;
    assert(r3 =~= spec_enc_string(p.explanation) + r4);
    lemma_parse_string_enc(p.explanation, r4);
    lemma_parse_lit_prefix(("}")@, rest);
    assert(r4 == ("}")@ + rest);
}

/// Reading the continuation of a parameter list inverts writing one.
proof fn lemma_parse_params_rest_enc(ps: Seq<ParameterView>, rest: Seq<char>)
    ensures
        spec_parse_params_rest(spec_enc_params_rest(ps) + seq![']'] + rest) == Some((ps, rest)),
    decreases ps.len(),
{
    let t = spec_enc_params_rest(ps) + seq![']'] + rest;
    if ps.len() == 0 {
        assert(t[0] == ']');
        assert(t.drop_first() =~= rest);
        assert(ps =~= Seq::<ParameterView>::empty());
    } else {
        assert(t[0] == ',');
        let r1 = spec_enc_params_rest(ps.drop_first()) + seq![']'] + rest;
        assert(t.drop_first() =~= spec_enc_param(ps[0]) + r1);
        lemma_parse_param_enc(ps[0], r1);
        assert(r1.len() < t.len());
        lemma_parse_params_rest_enc(ps.drop_first(), rest);
        assert(seq![ps[0]] + ps.drop_first() =~= ps);
    }
}

/// Reading a parameter list inverts writing one.
proof fn lemma_parse_params_list_enc(ps: Seq<ParameterView>, rest: Seq<char>)
    ensures
        spec_parse_params_list(spec_enc_params_list(ps) + rest) == Some((ps, rest)),
{
    let t = spec_enc_params_list(ps) + rest;
    assert(t[0] == '[');
    let t1 = t.drop_first();
    if ps.len() == 0 {
        assert(t1[0] == ']');
        assert(t1.drop_first() =~= rest);
        assert(ps =~= Seq::<ParameterView>::empty());
    } else {
        let r1 = spec_enc_params_rest(ps.drop_first()) + seq![']'] + rest;
        assert(t1 =~= spec_enc_param(ps[0]) + r1);
        reveal_strlit("{\"switch\":");
        assert(spec_enc_param(ps[0])[0] == '{');
        assert(t1[0] != ']');
        lemma_parse_param_enc(ps[0], r1);
        assert(r1.len() < t.len());
        lemma_parse_params_rest_enc(ps.drop_first(), rest);
        assert(seq![ps[0]] + ps.drop_first() =~= ps);
    }
}

/// Reading one model inverts writing one.
#[verifier::rlimit(100)]
proof fn lemma_parse_model_enc(m: ModelView, rest: Seq<char>)
    ensures
        spec_parse_model(spec_enc_model(m) + rest) == Some((m, rest)),
{
    let r10 = ("}")@ + rest;
    let r9 = spec_enc_params_list(m.parameters) + r10;
    let r8 = (",\"parameters\":")@ + r9;
    let r7 = spec_enc_string(m.server_url) + r8;
    let r6 = (",\"server-url\":")@ + r7;
    let r5 = spec_enc_string(m.url) + r6;
    let r4 = (",\"url\":")@ + r5;
    let r3 = spec_enc_string(m.version) + r4;
    let r2 = (",\"version\":")@ + r3;
    let r1 = spec_enc_string(m.name) + r2;
    assert(spec_enc_model(m) + rest =~= ("{\"name\":")@ + r1);
    lemma_parse_lit_prefix(("{\"name\":")@, r1);
    lemma_parse_string_enc(m.name, r2);
    lemma_parse_lit_prefix((",\"version\":")@, r3);
    lemma_parse_string_enc(m.version, r4);
    lemma_parse_lit_prefix((",\"url\":")@, r5);
    lemma_parse_string_enc(m.url, r6);
    lemma_parse_lit_prefix((",\"server-url\":")@, r7);
    lemma_parse_string_enc(m.server_url, r8);
    lemma_parse_lit_prefix((",\"parameters\":")@, r9);
    lemma_parse_params_list_enc(m.parameters, r10);
    lemma_parse_lit_prefix(("}")@, rest);
}

/// Reading the continuation of a model list inverts writing one.
#[verifier::rlimit(100)]
proof fn lemma_parse_models_rest_enc(ms: Seq<ModelView>, rest: Seq<char>)
    ensures
        spec_parse_models_rest(spec_enc_models_rest(ms) + seq![']'] + rest) == Some((ms, rest)),
    decreases ms.len(),
{
    let t = spec_enc_models_rest(ms) + seq![']'] + rest;
    if ms.len() == 0 {
        assert(t[0] == ']');
        assert(t.drop_first() =~= rest);
        assert(ms =~= Seq::<ModelView>::empty());
    } else {
        assert(t[0] == ',');
        let r1 = spec_enc_models_rest(ms.drop_first()) + seq![']'] + rest;
        assert(t.drop_first() =~= spec_enc_model(ms[0]) + r1);
        lemma_parse_model_enc(ms[0], r1);
        assert(r1.len() < t.len());
        lemma_parse_models_rest_enc(ms.drop_first(), rest);
        assert(seq![ms[0]] + ms.drop_first() =~= ms);
    }
}

/// Reading a model list inverts writing one.
#[verifier::rlimit(100)]
proof fn lemma_parse_models_list_enc(ms: Seq<ModelView>, rest: Seq<char>)
    ensures
        spec_parse_models_list(spec_enc_models_list(ms) + rest) == Some((ms, rest)),
{
    let t = spec_enc_models_list(ms) + rest;
    assert(t[0] == '[');
    let t1 = t.drop_first();
    if ms.len() == 0 {
        assert(t1[0] == ']');
        assert(t1.drop_first() =~= rest);
        assert(ms =~= Seq::<ModelView>::empty());
    } else {
        let r1 = spec_enc_models_rest(ms.drop_first()) + seq![']'] + rest;
        assert(t1 =~= spec_enc_model(ms[0]) + r1);
        reveal_strlit("{\"name\":");
        assert(spec_enc_model(ms[0])[0] == '{');
        assert(t1[0] != ']');
        lemma_parse_model_enc(ms[0], r1);
        assert(r1.len() < t.len());
        lemma_parse_models_rest_enc(ms.drop_first(), rest);
        assert(seq![ms[0]] + ms.drop_first() =~= ms);
    }
}

/// The round-trip law: reading back the written form of any catalog —
/// the empty one included — yields exactly that catalog.
pub proof fn lemma_catalog_round_trip(c: Seq<ModelView>)
    ensures
        spec_parse_catalog(spec_enc_catalog(c)) == Some(c),
{
    let t = spec_enc_catalog(c);
    let r1 = spec_enc_models_list(c) + ("}")@;
    assert(t =~= ("{\"available\":")@ + r1);
    lemma_parse_lit_prefix(("{\"available\":")@, r1);
    lemma_parse_models_list_enc(c, ("}")@);
    lemma_parse_lit_prefix(("}")@, Seq::<char>::empty());
    assert(("}")@ + Seq::<char>::empty() =~= ("}")@);
}

proof fn lemma_str_body_sound(t: Seq<char>)
    ensures
        spec_parse_str_body(t) matches Some((v, rest)) ==> t == spec_esc(v) + seq!['"'] + rest,
    decreases t.len(),
{
    match spec_parse_str_body(t) {
        None => {},
        Some((v, rest)) => {
            if t[0] == '"' {
                assert(t =~= spec_esc(v) + seq!['"'] + rest);
            } else if t[0] == '\\' {
                lemma_str_body_sound(t.skip(2));
                let (v2, rest2) = spec_parse_str_body(t.skip(2))->Some_0;
                assert(t.skip(2) == spec_esc(v2) + seq!['"'] + rest2);
                assert(v == seq![t[1]] + v2 && rest == rest2);
                assert(v[0] == t[1]);
                assert(v.drop_first() =~= v2);
                assert(spec_esc(v) == spec_esc_char(v[0]) + spec_esc(v.drop_first()));
                assert(spec_esc_char(v[0]) =~= seq!['\\', t[1]]);
                assert(t =~= seq![t[0], t[1]] + t.skip(2));
                assert(t == seq![t[0], t[1]] + (spec_esc(v2) + seq!['"'] + rest));
                assert(seq![t[0], t[1]] + (spec_esc(v2) + seq!['"'] + rest) =~= spec_esc(v)
                    + seq!['"'] + rest);
            } else {
                lemma_str_body_sound(t.drop_first());
                let (v2, rest2) = spec_parse_str_body(t.drop_first())->Some_0;
                assert(t.drop_first() == spec_esc(v2) + seq!['"'] + rest2);
                assert(v == seq![t[0]] + v2 && rest == rest2);
                assert(v[0] == t[0]);
                assert(v.drop_first() =~= v2);
                assert(spec_esc(v) == spec_esc_char(v[0]) + spec_esc(v.drop_first()));
                assert(spec_esc_char(v[0]) =~= seq![t[0]]);
                assert(t =~= seq![t[0]] + t.drop_first());
                assert(t == seq![t[0]] + (spec_esc(v2) + seq!['"'] + rest));
                assert(seq![t[0]] + (spec_esc(v2) + seq!['"'] + rest) =~= spec_esc(v) + seq!['"']
                    + rest);
            }
        },
    }
}

proof fn lemma_string_sound(t: Seq<char>)
    ensures
        spec_parse_string(t) matches Some((v, rest)) ==> t == spec_enc_string(v) + rest,
{
    match spec_parse_string(t) {
        None => {},
        Some((v, rest)) => {
            assert(t.len() > 0 && t[0] == '"');
            assert(spec_parse_str_body(t.drop_first()) == Some((v, rest)));
            lemma_str_body_sound(t.drop_first());
            assert(t.drop_first() == spec_esc(v) + seq!['"'] + rest);
            assert(t =~= seq!['"'] + t.drop_first());
            assert(t =~= spec_enc_string(v) + rest);
        },
    }
}

proof fn lemma_lit_sound(t: Seq<char>, lit: Seq<char>)
    ensures
        spec_parse_lit(t, lit) matches Some(rest) ==> t == lit + rest,
{
    match spec_parse_lit(t, lit) {
        None => {},
        Some(rest) => {
            assert(t =~= lit + rest);
        },
    }
}

proof fn lemma_param_sound(t: Seq<char>)
    ensures
        spec_parse_param(t) matches Some((p, rest)) ==> t == spec_enc_param(p) + rest,
{
    match spec_parse_param(t) {
        None => {},
        Some((p, rest)) => {
            let t1 = spec_parse_lit(t, ("{\"switch\":")@)->Some_0;
            lemma_lit_sound(t, ("{\"switch\":")@);
            let (sw, t2) = spec_parse_string(t1)->Some_0;
            lemma_string_sound(t1);
            let t3 = spec_parse_lit(t2, (",\"explanation\":")@)->Some_0;
            lemma_lit_sound(t2, (",\"explanation\":")@);
            let (ex, t4) = spec_parse_string(t3)->Some_0;
            lemma_string_sound(t3);
            lemma_lit_sound(t4, ("}")@);
            assert(t =~= spec_enc_param(p) + rest);
        },
    }
}

proof fn lemma_params_rest_sound(t: Seq<char>)
    ensures
        spec_parse_params_rest(t) matches Some((ps, rest)) ==> t == spec_enc_params_rest(ps)
            + seq![']'] + rest,
    decreases t.len(),
{
    match spec_parse_params_rest(t) {
        None => {},
        Some((ps, rest)) => {
            if t[0] == ']' {
                assert(t =~= seq![t[0]] + t.drop_first());
                assert(t =~= spec_enc_params_rest(ps) + seq![']'] + rest);
            } else {
                let (p, t2) = spec_parse_param(t.drop_first())->Some_0;
                lemma_param_sound(t.drop_first());
                lemma_params_rest_sound(t2);
                let (ps2, rest2) = spec_parse_params_rest(t2)->Some_0;
                assert(ps.drop_first() =~= ps2 && rest == rest2);
                assert(ps[0] == p);
                assert(t =~= seq![t[0]] + t.drop_first());
                assert(t == seq![','] + (spec_enc_param(p) + (spec_enc_params_rest(ps2)
                    + seq![']'] + rest)));
                assert(seq![','] + (spec_enc_param(p) + (spec_enc_params_rest(ps2) + seq![']']
                    + rest)) =~= spec_enc_params_rest(ps) + seq![']'] + rest);
            }
        },
    }
}

proof fn lemma_params_list_sound(t: Seq<char>)
    ensures
        spec_parse_params_list(t) matches Some((ps, rest)) ==> t == spec_enc_params_list(ps)
            + rest,
{
    match spec_parse_params_list(t) {
        None => {},
        Some((ps, rest)) => {
            let t1 = t.drop_first();
            if t1.len() > 0 && t1[0] == ']' {
                assert(t =~= seq![t[0]] + t1);
                assert(t1 =~= seq![t1[0]] + t1.drop_first());
                assert(t =~= spec_enc_params_list(ps) + rest);
            } else {
                let (p, t2) = spec_parse_param(t1)->Some_0;
                lemma_param_sound(t1);
                lemma_params_rest_sound(t2);
                let (ps2, rest2) = spec_parse_params_rest(t2)->Some_0;
                assert(ps.drop_first() =~= ps2 && rest == rest2);
                assert(ps[0] == p);
                assert(t =~= seq![t[0]] + t1);
                assert(t == seq!['['] + (spec_enc_param(p) + (spec_enc_params_rest(ps2)
                    + seq![']'] + rest)));
                assert(seq!['['] + (spec_enc_param(p) + (spec_enc_params_rest(ps2) + seq![']']
                    + rest)) =~= spec_enc_params_list(ps) + rest);
            }
        },
    }
}

#[verifier::rlimit(100)]
#[verifier::spinoff_prover]
proof fn lemma_model_sound(t: Seq<char>)
    ensures
        spec_parse_model(t) matches Some((m, rest)) ==> t == spec_enc_model(m) + rest,
{
    match spec_parse_model(t) {
        None => {},
        Some((m, rest)) => {
            let t1 = spec_parse_lit(t, ("{\"name\":")@)->Some_0;
            lemma_lit_sound(t, ("{\"name\":")@);
            let (name, t2) = spec_parse_string(t1)->Some_0;
            lemma_string_sound(t1);
            let t3 = spec_parse_lit(t2, (",\"version\":")@)->Some_0;
            lemma_lit_sound(t2, (",\"version\":")@);
            let (version, t4) = spec_parse_string(t3)->Some_0;
            lemma_string_sound(t3);
            let t5 = spec_parse_lit(t4, (",\"url\":")@)->Some_0;
            lemma_lit_sound(t4, (",\"url\":")@);
            let (url, t6) = spec_parse_string(t5)->Some_0;
            lemma_string_sound(t5);
            let t7 = spec_parse_lit(t6, (",\"server-url\":")@)->Some_0;
            lemma_lit_sound(t6, (",\"server-url\":")@);
            let (server_url, t8) = spec_parse_string(t7)->Some_0;
            lemma_string_sound(t7);
            let t9 = spec_parse_lit(t8, (",\"parameters\":")@)->Some_0;
            lemma_lit_sound(t8, (",\"parameters\":")@);
            let (ps, t10) = spec_parse_params_list(t9)->Some_0;
            lemma_params_list_sound(t9);
            lemma_lit_sound(t10, ("}")@);
            let n10 = ("}")@ + rest;
            assert(t10 == n10);
            let n9 = spec_enc_params_list(m.parameters) + n10;
            assert(t9 == n9);
            let n8 = (",\"parameters\":")@ + n9;
            assert(t8 == n8);
            let n7 = spec_enc_string(m.server_url) + n8;
            assert(t7 == n7);
            let n6 = (",\"server-url\":")@ + n7;
            assert(t6 == n6);
            let n5 = spec_enc_string(m.url) + n6;
            assert(t5 == n5);
            let n4 = (",\"url\":")@ + n5;
            assert(t4 == n4);
            let n3 = spec_enc_string(m.version) + n4;
            assert(t3 == n3);
            let n2 = (",\"version\":")@ + n3;
            assert(t2 == n2);
            let n1 = spec_enc_string(m.name) + n2;
            assert(t1 == n1);
            let n0 = ("{\"name\":")@ + n1;
            assert(t == n0);
            assert(n0 =~= spec_enc_model(m) + rest);
        },
    }
}

#[verifier::rlimit(100)]
#[verifier::spinoff_prover]
proof fn lemma_models_rest_sound(t: Seq<char>)
    ensures
        spec_parse_models_rest(t) matches Some((ms, rest)) ==> t == spec_enc_models_rest(ms)
            + seq![']'] + rest,
    decreases t.len(),
{
    match spec_parse_models_rest(t) {
        None => {},
        Some((ms, rest)) => {
            if t[0] == ']' {
                assert(t =~= seq![t[0]] + t.drop_first());
                assert(t =~= spec_enc_models_rest(ms) + seq![']'] + rest);
            } else {
                let (m, t2) = spec_parse_model(t.drop_first())->Some_0;
                lemma_model_sound(t.drop_first());
                lemma_models_rest_sound(t2);
                let (ms2, rest2) = spec_parse_models_rest(t2)->Some_0;
                assert(ms.drop_first() =~= ms2 && rest == rest2);
                assert(ms[0] == m);
                assert(t =~= seq![t[0]] + t.drop_first());
                assert(t == seq![','] + (spec_enc_model(m) + (spec_enc_models_rest(ms2)
                    + seq![']'] + rest)));
                assert(seq![','] + (spec_enc_model(m) + (spec_enc_models_rest(ms2) + seq![']']
                    + rest)) =~= spec_enc_models_rest(ms) + seq![']'] + rest);
            }
        },
    }
}

#[verifier::rlimit(100)]
#[verifier::spinoff_prover]
proof fn lemma_models_list_sound(t: Seq<char>)
    ensures
        spec_parse_models_list(t) matches Some((ms, rest)) ==> t == spec_enc_models_list(ms)
            + rest,
{
    match spec_parse_models_list(t) {
        None => {},
        Some((ms, rest)) => {
            let t1 = t.drop_first();
            if t1.len() > 0 && t1[0] == ']' {
                assert(t =~= seq![t[0]] + t1);
                assert(t1 =~= seq![t1[0]] + t1.drop_first());
                assert(t =~= spec_enc_models_list(ms) + rest);
            } else {
                let (m, t2) = spec_parse_model(t1)->Some_0;
                lemma_model_sound(t1);
                lemma_models_rest_sound(t2);
                let (ms2, rest2) = spec_parse_models_rest(t2)->Some_0;
                assert(ms.drop_first() =~= ms2 && rest == rest2);
                assert(ms[0] == m);
                assert(t =~= seq![t[0]] + t1);
                assert(t == seq!['['] + (spec_enc_model(m) + (spec_enc_models_rest(ms2)
                    + seq![']'] + rest)));
                assert(seq!['['] + (spec_enc_model(m) + (spec_enc_models_rest(ms2) + seq![']']
                    + rest)) =~= spec_enc_models_list(ms) + rest);
            }
        },
    }
}

/// The converse of the round-trip law: the reader accepts nothing but
/// canonical forms.  Whenever a text reads as a catalog, the text is exactly
/// that catalog's written form — so writing and reading are inverse
/// bijections between catalogs and the texts the reader accepts.
pub proof fn lemma_parse_catalog_sound(t: Seq<char>)
    ensures
        spec_parse_catalog(t) matches Some(c) ==> t == spec_enc_catalog(c),
{
    match spec_parse_catalog(t) {
        None => {},
        Some(c) => {
            let t1 = spec_parse_lit(t, ("{\"available\":")@)->Some_0;
            lemma_lit_sound(t, ("{\"available\":")@);
            let (ms, t2) = spec_parse_models_list(t1)->Some_0;
            lemma_models_list_sound(t1);
            lemma_lit_sound(t2, ("}")@);
            let t3 = spec_parse_lit(t2, ("}")@)->Some_0;
            assert(t3 =~= Seq::<char>::empty());
            assert(t =~= spec_enc_catalog(c));
        },
    }
}

fn append_param(out: &mut String, p: &Parameter)
    ensures
        final(out)@ == old(out)@ + spec_enc_param(p@),
{
    out.append("{\"switch\":");
    append_quoted(out, &p.switch);
    out.append(",\"explanation\":");
    append_quoted(out, &p.explanation);
    out.append("}");
    proof {
        assert(out@ =~= old(out)@ + spec_enc_param(p@));
    }
}

fn append_params_rest(out: &mut String, ps: &Vec<Parameter>, i: usize)
    requires
        i <= ps@.len(),
    ensures
        final(out)@ == old(out)@ + spec_enc_params_rest(spec_param_views(ps@).skip(i as int)),
    decreases ps@.len() - i,
{
    let ghost v = spec_param_views(ps@);
    if i == ps.len() {
        proof {
            assert(v.skip(i as int) =~= Seq::<ParameterView>::empty());
            assert(out@ =~= out@ + spec_enc_params_rest(v.skip(i as int)));
        }
        return ;
    }
    out.append(",");
    append_param(out, &ps[i]);
    append_params_rest(out, ps, i + 1);
    proof {
        reveal_strlit(",");
        assert((",")@ =~= seq![',']);
        assert(v.skip(i as int)[0] == ps@[i as int]@);
        assert(v.skip(i as int).drop_first() =~= v.skip(i + 1));
        assert(out@ =~= old(out)@ + spec_enc_params_rest(v.skip(i as int)));
    }
}

fn append_params_list(out: &mut String, ps: &Vec<Parameter>)
    ensures
        final(out)@ == old(out)@ + spec_enc_params_list(spec_param_views(ps@)),
{
    let ghost v = spec_param_views(ps@);
    out.append("[");
    if ps.len() == 0 {
        out.append("]");
        proof {
            reveal_strlit("[");
            reveal_strlit("]");
            assert(("[")@ =~= seq!['[']);
            assert(("]")@ =~= seq![']']);
            assert(out@ =~= old(out)@ + spec_enc_params_list(v));
        }
    } else {
        append_param(out, &ps[0]);
        append_params_rest(out, ps, 1);
        out.append("]");
        proof {
            reveal_strlit("[");
            reveal_strlit("]");
            assert(("[")@ =~= seq!['[']);
            assert(("]")@ =~= seq![']']);
            assert(v[0] == ps@[0]@);
            assert(v.drop_first() =~= v.skip(1));
            assert(out@ =~= old(out)@ + spec_enc_params_list(v));
        }
    }
}

#[verifier::rlimit(100)]
fn append_model(out: &mut String, m: &Model)
    ensures
        final(out)@ == old(out)@ + spec_enc_model(m@),
{
    out.append("{\"name\":");
    append_quoted(out, &m.name);
    out.append(",\"version\":");
    append_quoted(out, &m.version);
    out.append(",\"url\":");
    append_quoted(out, &m.url);
    out.append(",\"server-url\":");
    append_quoted(out, &m.server_url);
    out.append(",\"parameters\":");
    append_params_list(out, &m.parameters);
    out.append("}");
    proof {
        assert(m@.parameters =~= spec_param_views(m.parameters@));
        assert(out@ =~= old(out)@ + spec_enc_model(m@));
    }
}

fn append_models_rest(out: &mut String, ms: &Vec<Model>, i: usize)
    requires
        i <= ms@.len(),
    ensures
        final(out)@ == old(out)@ + spec_enc_models_rest(spec_model_views(ms@).skip(i as int)),
    decreases ms@.len() - i,
{
    let ghost v = spec_model_views(ms@);
    if i == ms.len() {
        proof {
            assert(v.skip(i as int) =~= Seq::<ModelView>::empty());
            assert(out@ =~= out@ + spec_enc_models_rest(v.skip(i as int)));
        }
        return ;
    }
    out.append(",");
    append_model(out, &ms[i]);
    append_models_rest(out, ms, i + 1);
    proof {
        reveal_strlit(",");
        assert((",")@ =~= seq![',']);
        assert(v.skip(i as int)[0] == ms@[i as int]@);
        assert(v.skip(i as int).drop_first() =~= v.skip(i + 1));
        assert(out@ =~= old(out)@ + spec_enc_models_rest(v.skip(i as int)));
    }
}

fn append_models_list(out: &mut String, ms: &Vec<Model>)
    ensures
        final(out)@ == old(out)@ + spec_enc_models_list(spec_model_views(ms@)),
{
    let ghost v = spec_model_views(ms@);
    out.append("[");
    if ms.len() == 0 {
        out.append("]");
        proof {
            reveal_strlit("[");
            reveal_strlit("]");
            assert(("[")@ =~= seq!['[']);
            assert(("]")@ =~= seq![']']);
            assert(out@ =~= old(out)@ + spec_enc_models_list(v));
        }
    } else {
        append_model(out, &ms[0]);
        append_models_rest(out, ms, 1);
        out.append("]");
        proof {
            reveal_strlit("[");
            reveal_strlit("]");
            assert(("[")@ =~= seq!['[']);
            assert(("]")@ =~= seq![']']);
            assert(v[0] == ms@[0]@);
            assert(v.drop_first() =~= v.skip(1));
            assert(out@ =~= old(out)@ + spec_enc_models_list(v));
        }
    }
}

/// Writes a catalog in its canonical on-disk form.
pub fn encode_catalog(c: &Models) -> (r: String)
    ensures
        r@ == spec_enc_catalog(c@),
{
    let mut out = String::new();
    out.append("{\"available\":");
    append_models_list(&mut out, &c.available);
    out.append("}");
    proof {
        assert(c@ =~= spec_model_views(c.available@));
        assert(out@ =~= spec_enc_catalog(c@));
    }
    out
}

fn parse_param_at(s: &str, i: usize, n: usize) -> (r: Option<(Parameter, usize)>)
    requires
        n == s@.len(),
        i <= n,
    ensures
        match r {
            Some((p, j)) => {
                &&& i <= j <= n
                &&& spec_parse_param(s@.skip(i as int)) == Some((p@, s@.skip(j as int)))
            },
            None => spec_parse_param(s@.skip(i as int)) is None,
        },
{
    let i1 = match expect_lit(s, i, n, "{\"switch\":") {
        Some(j) => j,
        None => {
            return None;
        },
    };
    let (switch, i2) = match parse_string_at(s, i1, n) {
        Some(x) => x,
        None => {
            return None;
        },
    };
    let i3 = match expect_lit(s, i2, n, ",\"explanation\":") {
        Some(j) => j,
        None => {
            return None;
        },
    };
    let (explanation, i4) = match parse_string_at(s, i3, n) {
        Some(x) => x,
        None => {
            return None;
        },
    };
    let i5 = match expect_lit(s, i4, n, "}") {
        Some(j) => j,
        None => {
            return None;
        },
    };
    Some((Parameter { switch, explanation }, i5))
}

fn parse_params_list_at(s: &str, i: usize, n: usize) -> (r: Option<(Vec<Parameter>, usize)>)
    requires
        n == s@.len(),
        i <= n,
    ensures
        match r {
            Some((ps, j)) => {
                &&& i <= j <= n
                &&& spec_parse_params_list(s@.skip(i as int)) == Some(
                    (spec_param_views(ps@), s@.skip(j as int)),
                )
            },
            None => spec_parse_params_list(s@.skip(i as int)) is None,
        },
{
    if i >= n || s.get_char(i) != '[' {
        return None;
    }
    proof {
        assert(s@.skip(i as int)[0] == '[');
        assert(s@.skip(i as int).drop_first() =~= s@.skip(i + 1));
    }
    let mut acc: Vec<Parameter> = Vec::new();
    if i + 1 < n && s.get_char(i + 1) == ']' {
        proof {
            assert(s@.skip(i + 1)[0] == ']');
            assert(s@.skip(i + 1).drop_first() =~= s@.skip(i + 2));
            assert(spec_param_views(acc@) =~= Seq::<ParameterView>::empty());
        }
        return Some((acc, i + 2));
    }
    let (p0, first_end) = match parse_param_at(s, i + 1, n) {
        Some(x) => x,
        None => {
            return None;
        },
    };
    let mut j = first_end;
    acc.push(p0);
    proof {
        assert(spec_param_views(acc@) =~= seq![p0@]);
        match spec_parse_params_rest(s@.skip(j as int)) {
            Some((ps2, rest)) => {
                assert(seq![p0@] + ps2 =~= spec_param_views(acc@) + ps2);
            },
            None => {},
        }
    }
    loop
        invariant
            n == s@.len(),
            i < j <= n,
            spec_parse_params_list(s@.skip(i as int)) == (match spec_parse_params_rest(
                s@.skip(j as int),
            ) {
                Some((ps2, rest)) => Some::<(Seq<ParameterView>, Seq<char>)>(
                    (spec_param_views(acc@) + ps2, rest),
                ),
                None => None::<(Seq<ParameterView>, Seq<char>)>,
            }),
        decreases n - j,
    {
        let ghost t = s@.skip(j as int);
        if j >= n {
            return None;
        }
        let c = s.get_char(j);
        if c == ']' {
            proof {
                assert(t[0] == ']');
                assert(t.drop_first() =~= s@.skip(j + 1));
                assert(spec_param_views(acc@) + Seq::<ParameterView>::empty() =~= spec_param_views(
                    acc@,
                ));
            }
            return Some((acc, j + 1));
        } else if c == ',' {
            proof {
                assert(t[0] == ',');
                assert(t.drop_first() =~= s@.skip(j + 1));
            }
            let (p, j2) = match parse_param_at(s, j + 1, n) {
                Some(x) => x,
                None => {
                    return None;
                },
            };
            let ghost acc0 = spec_param_views(acc@);
            acc.push(p);
            proof {
                assert(spec_param_views(acc@) =~= acc0.push(p@));
                match spec_parse_params_rest(s@.skip(j2 as int)) {
                    Some((ps3, rest)) => {
                        assert(acc0 + (seq![p@] + ps3) =~= spec_param_views(acc@) + ps3);
                    },
                    None => {},
                }
            }
            j = j2;
        } else {
            return None;
        }
    }
}

fn parse_model_at(s: &str, i: usize, n: usize) -> (r: Option<(Model, usize)>)
    requires
        n == s@.len(),
        i <= n,
    ensures
        match r {
            Some((m, j)) => {
                &&& i <= j <= n
                &&& spec_parse_model(s@.skip(i as int)) == Some((m@, s@.skip(j as int)))
            },
            None => spec_parse_model(s@.skip(i as int)) is None,
        },
{
    let i1 = match expect_lit(s, i, n, "{\"name\":") {
        Some(j) => j,
        None => {
            return None;
        },
    };
    let (name, i2) = match parse_string_at(s, i1, n) {
        Some(x) => x,
        None => {
            return None;
        },
    };
    let i3 = match expect_lit(s, i2, n, ",\"version\":") {
        Some(j) => j,
        None => {
            return None;
        },
    };
    let (version, i4) = match parse_string_at(s, i3, n) {
        Some(x) => x,
        None => {
            return None;
        },
    };
    let i5 = match expect_lit(s, i4, n, ",\"url\":") {
        Some(j) => j,
        None => {
            return None;
        },
    };
    let (url, i6) = match parse_string_at(s, i5, n) {
        Some(x) => x,
        None => {
            return None;
        },
    };
    let i7 = match expect_lit(s, i6, n, ",\"server-url\":") {
        Some(j) => j,
        None => {
            return None;
        },
    };
    let (server_url, i8) = match parse_string_at(s, i7, n) {
        Some(x) => x,
        None => {
            return None;
        },
    };
    let i9 = match expect_lit(s, i8, n, ",\"parameters\":") {
        Some(j) => j,
        None => {
            return None;
        },
    };
    let (parameters, i10) = match parse_params_list_at(s, i9, n) {
        Some(x) => x,
        None => {
            return None;
        },
    };
    let i11 = match expect_lit(s, i10, n, "}") {
        Some(j) => j,
        None => {
            return None;
        },
    };
    let m = Model { name, version, url, server_url, parameters };
    proof {
        assert(m@.parameters =~= spec_param_views(m.parameters@));
    }
    Some((m, i11))
}

#[verifier::rlimit(100)]
fn parse_models_list_at(s: &str, i: usize, n: usize) -> (r: Option<(Vec<Model>, usize)>)
    requires
        n == s@.len(),
        i <= n,
    ensures
        match r {
            Some((ms, j)) => {
                &&& i <= j <= n
                &&& spec_parse_models_list(s@.skip(i as int)) == Some(
                    (spec_model_views(ms@), s@.skip(j as int)),
                )
            },
            None => spec_parse_models_list(s@.skip(i as int)) is None,
        },
{
    if i >= n || s.get_char(i) != '[' {
        return None;
    }
    proof {
        assert(s@.skip(i as int)[0] == '[');
        assert(s@.skip(i as int).drop_first() =~= s@.skip(i + 1));
    }
    let mut acc: Vec<Model> = Vec::new();
    if i + 1 < n && s.get_char(i + 1) == ']' {
        proof {
            assert(s@.skip(i + 1)[0] == ']');
            assert(s@.skip(i + 1).drop_first() =~= s@.skip(i + 2));
            assert(spec_model_views(acc@) =~= Seq::<ModelView>::empty());
        }
        return Some((acc, i + 2));
    }
    let (m0, first_end) = match parse_model_at(s, i + 1, n) {
        Some(x) => x,
        None => {
            return None;
        },
    };
    let mut j = first_end;
    acc.push(m0);
    proof {
        assert(spec_model_views(acc@) =~= seq![m0@]);
        match spec_parse_models_rest(s@.skip(j as int)) {
            Some((ms2, rest)) => {
                assert(seq![m0@] + ms2 =~= spec_model_views(acc@) + ms2);
            },
            None => {},
        }
    }
    loop
        invariant
            n == s@.len(),
            i < j <= n,
            spec_parse_models_list(s@.skip(i as int)) == (match spec_parse_models_rest(
                s@.skip(j as int),
            ) {
                Some((ms2, rest)) => Some::<(Seq<ModelView>, Seq<char>)>(
                    (spec_model_views(acc@) + ms2, rest),
                ),
                None => None::<(Seq<ModelView>, Seq<char>)>,
            }),
        decreases n - j,
    {
        let ghost t = s@.skip(j as int);
        if j >= n {
            return None;
        }
        let c = s.get_char(j);
        if c == ']' {
            proof {
                assert(t[0] == ']');
                assert(t.drop_first() =~= s@.skip(j + 1));
                assert(spec_model_views(acc@) + Seq::<ModelView>::empty() =~= spec_model_views(
                    acc@,
                ));
            }
            return Some((acc, j + 1));
        } else if c == ',' {
            proof {
                assert(t[0] == ',');
                assert(t.drop_first() =~= s@.skip(j + 1));
            }
            let (m, j2) = match parse_model_at(s, j + 1, n) {
                Some(x) => x,
                None => {
                    return None;
                },
            };
            let ghost acc0 = spec_model_views(acc@);
            acc.push(m);
            proof {
                assert(spec_model_views(acc@) =~= acc0.push(m@));
                match spec_parse_models_rest(s@.skip(j2 as int)) {
                    Some((ms3, rest)) => {
                        assert(acc0 + (seq![m@] + ms3) =~= spec_model_views(acc@) + ms3);
                    },
                    None => {},
                }
            }
            j = j2;
        } else {
            return None;
        }
    }
}

/// Reads a catalog from its canonical on-disk form; `None` when the text is
/// not such a form.
pub fn parse_catalog(s: &str) -> (r: Option<Models>)
    ensures
        match r {
            Some(c) => spec_parse_catalog(s@) == Some(c@),
            None => spec_parse_catalog(s@) is None,
        },
{
    let n = s.unicode_len();
    proof {
        assert(s@.skip(0) =~= s@);
    }
    let i1 = match expect_lit(s, 0, n, "{\"available\":") {
        Some(j) => j,
        None => {
            return None;
        },
    };
    let (ms, i2) = match parse_models_list_at(s, i1, n) {
        Some(x) => x,
        None => {
            return None;
        },
    };
    let i3 = match expect_lit(s, i2, n, "}") {
        Some(j) => j,
        None => {
            return None;
        },
    };
    if i3 != n {
        return None;
    }
    let c = Models { available: ms };
    proof {
        assert(c@ =~= spec_model_views(c.available@));
    }
    Some(c)
}

} // verus!
