//! The wire codec: a canonical JSON rendering of the prediction request
//! and response, with a parser that inverts it. The round-trip laws state
//! that decoding an encoding gives the original back, for every value.
//!
//! String contents are escaped minimally — a quote as `\"`, a backslash
//! as `\\` — and every other character stands for itself.

use vstd::prelude::*;
use crate::types::{
    ModelType, ParamEntry, ParamEntryView, PredictionRequest, PredictionRequestView,
    PredictionResponse, PredictionResponseView, QualityPreset,
};
use crate::strutil::{
    first_at, is_digit, digits_val, dec_digits, all_digits, u64_to_string,
    lemma_dec_digits_val, match_at, parse_u64,
};

verus! {

/// How one character is written inside a JSON string literal.
pub open spec fn esc_char(c: char) -> Seq<char> {
    if c == '"' {
        seq!['\\', '"']
    } else if c == '\\' {
        seq!['\\', '\\']
    } else {
        seq![c]
    }
}

/// The escaped body of a string.
pub open spec fn esc(s: Seq<char>) -> Seq<char>
    decreases s.len(),
{
    if s.len() == 0 {
        Seq::empty()
    } else {
        esc_char(s[0]) + esc(s.skip(1))
    }
}

/// Escaping one more character appends its escape.
pub proof fn lemma_esc_snoc(t: Seq<char>, c: char)
    ensures
        esc(t.push(c)) == esc(t) + esc_char(c),
    decreases t.len(),
{
    if t.len() == 0 {
        assert(t.push(c)[0] == c);
        assert(t.push(c).skip(1) =~= Seq::<char>::empty());
        assert(esc(Seq::<char>::empty()) =~= Seq::<char>::empty());
        assert(esc(t) =~= Seq::<char>::empty());
        assert(esc(t.push(c)) =~= esc(t) + esc_char(c));
    } else {
        assert(t.push(c)[0] == t[0]);
        assert(t.push(c).skip(1) =~= t.skip(1).push(c));
        lemma_esc_snoc(t.skip(1), c);
        assert(esc(t.push(c)) =~= esc(t) + esc_char(c));
    }
}

/// A string as a JSON string literal.
pub open spec fn enc_str_lit(s: Seq<char>) -> Seq<char> {
    seq!['"'] + esc(s) + seq!['"']
}

/// Append the JSON string literal of `s`.
pub fn append_json_string(out: &mut String, s: &str)
    ensures
        final(out)@ == old(out)@ + enc_str_lit(s@),
{
    let ghost base = out@;
    out.append("\"");
    proof {
        reveal_strlit("\"");
        assert(esc(s@.take(0)) =~= Seq::<char>::empty());
        assert(out@ =~= base + seq!['"'] + esc(s@.take(0)));
    }
    let len = s.unicode_len();
    let mut i: usize = 0;
    while i < len
        invariant
            i <= len,
            len == s@.len(),
            out@ == base + seq!['"'] + esc(s@.take(i as int)),
        decreases len - i,
    {
        let c = s.get_char(i);
        if c == '"' {
            out.append("\\\"");
            proof {
                reveal_strlit("\\\"");
            }
        } else if c == '\\' {
            out.append("\\\\");
            proof {
                reveal_strlit("\\\\");
            }
        } else {
            let piece = s.substring_char(i, i + 1);
            out.append(piece);
        }
        proof {
            assert(s@.take(i as int + 1) =~= s@.take(i as int).push(s@[i as int]));
            lemma_esc_snoc(s@.take(i as int), s@[i as int]);
            assert(out@ =~= base + seq!['"'] + esc(s@.take(i as int + 1)));
        }
        i = i + 1;
    }
    out.append("\"");
    proof {
        reveal_strlit("\"");
        assert(s@.take(len as int) =~= s@);
        assert(out@ =~= base + enc_str_lit(s@));
    }
}

/// Parse the body of a string literal: everything after the opening
/// quote, up to and including the closing quote. Yields the unescaped
/// content and the position after the closing quote.
pub open spec fn spec_parse_str_body(s: Seq<char>, i: int) -> Option<(Seq<char>, int)>
    decreases s.len() - i,
{
    if i < 0 || i >= s.len() {
        Option::None
    } else if s[i] == '"' {
        Option::Some((Seq::empty(), i + 1))
    } else if s[i] == '\\' {
        if i + 2 > s.len() {
            Option::None
        } else if s[i + 1] == '"' || s[i + 1] == '\\' {
            match spec_parse_str_body(s, i + 2) {
                Option::Some((t, e)) => Option::Some((seq![s[i + 1]] + t, e)),
                Option::None => Option::None,
            }
        } else {
            Option::None
        }
    } else {
        match spec_parse_str_body(s, i + 1) {
            Option::Some((t, e)) => Option::Some((seq![s[i]] + t, e)),
            Option::None => Option::None,
        }
    }
}

/// Parse a string literal beginning at `i`: an opening quote, the body,
/// the closing quote.
pub open spec fn spec_parse_str(s: Seq<char>, i: int) -> Option<(Seq<char>, int)> {
    if 0 <= i < s.len() && s[i] == '"' {
        spec_parse_str_body(s, i + 1)
    } else {
        Option::None
    }
}

/// A parsed body ends after where it began, within the input.
pub proof fn lemma_parse_str_body_bounds(s: Seq<char>, i: int)
    ensures
        spec_parse_str_body(s, i) matches Some(te) ==> i < te.1 <= s.len(),
    decreases s.len() - i,
{
    if 0 <= i < s.len() && s[i] != '"' {
        if s[i] == '\\' {
            if i + 2 <= s.len() {
                lemma_parse_str_body_bounds(s, i + 2);
            }
        } else {
            lemma_parse_str_body_bounds(s, i + 1);
        }
    }
}

/// The core of the string round trip: an escaped body followed by a
/// closing quote parses back to the original string.
pub proof fn lemma_parse_of_esc(s: Seq<char>, i: int, x: Seq<char>)
    requires
        0 <= i,
        i + esc(x).len() + 1 <= s.len(),
        s.subrange(i, i + esc(x).len() + 1) == esc(x) + seq!['"'],
    ensures
        spec_parse_str_body(s, i) == Option::Some((x, i + esc(x).len() + 1)),
    decreases x.len(),
{
    let piece = esc(x) + seq!['"'];
    if x.len() == 0 {
        assert(esc(x) =~= Seq::<char>::empty());
        assert(s[i] == piece[0]);
        assert(s[i] == '"');
    } else {
        let c = x[0];
        let x2 = x.skip(1);
        assert(esc(x) == esc_char(c) + esc(x2));
        if c == '"' || c == '\\' {
            assert(esc_char(c) =~= seq!['\\', c]);
            assert(s[i] == piece[0]);
            assert(s[i + 1] == piece[1]);
            assert(s[i] == '\\');
            assert(s[i + 1] == c);
            assert(s.subrange(i + 2, i + 2 + esc(x2).len() + 1) =~= esc(x2) + seq!['"']) by {
                assert forall|k: int| 0 <= k < esc(x2).len() + 1 implies s.subrange(
                    i + 2,
                    i + 2 + esc(x2).len() + 1,
                )[k] == (esc(x2) + seq!['"'])[k] by {
                    assert(s.subrange(i + 2, i + 2 + esc(x2).len() + 1)[k] == s[i + 2 + k]);
                    assert(s[i + 2 + k] == piece[2 + k]);
                    assert(piece[2 + k] == (esc(x2) + seq!['"'])[k]);
                }
            }
            lemma_parse_of_esc(s, i + 2, x2);
            assert(seq![s[i + 1]] + x2 =~= x);
        } else {
            assert(esc_char(c) =~= seq![c]);
            assert(s[i] == piece[0]);
            assert(s[i] == c);
            assert(s.subrange(i + 1, i + 1 + esc(x2).len() + 1) =~= esc(x2) + seq!['"']) by {
                assert forall|k: int| 0 <= k < esc(x2).len() + 1 implies s.subrange(
                    i + 1,
                    i + 1 + esc(x2).len() + 1,
                )[k] == (esc(x2) + seq!['"'])[k] by {
                    assert(s.subrange(i + 1, i + 1 + esc(x2).len() + 1)[k] == s[i + 1 + k]);
                    assert(s[i + 1 + k] == piece[1 + k]);
                    assert(piece[1 + k] == (esc(x2) + seq!['"'])[k]);
                }
            }
            lemma_parse_of_esc(s, i + 1, x2);
            assert(seq![s[i]] + x2 =~= x);
        }
    }
}

/// Parse a string literal at `pos`, executably.
pub fn parse_json_string(s: &str, pos: usize) -> (r: Option<(String, usize)>)
    ensures
        match r {
            Option::Some(ve) => spec_parse_str(s@, pos as int) == Option::Some(
                (ve.0@, ve.1 as int),
            ) && pos < ve.1 <= s@.len(),
            Option::None => spec_parse_str(s@, pos as int) is None,
        },
{
    let len = s.unicode_len();
    if pos >= len || s.get_char(pos) != '"' {
        return Option::None;
    }
    let mut acc = String::new();
    let mut i: usize = pos + 1;
    while i < len
        invariant
            pos + 1 <= i <= len,
            len == s@.len(),
            s@[pos as int] == '"',
            match spec_parse_str_body(s@, i as int) {
                Option::Some(te) => spec_parse_str_body(s@, pos as int + 1) == Option::Some(
                    (acc@ + te.0, te.1),
                ),
                Option::None => spec_parse_str_body(s@, pos as int + 1) is None,
            },
        decreases len - i,
    {
        let c = s.get_char(i);
        if c == '"' {
            proof {
                assert(spec_parse_str_body(s@, i as int) == Option::Some(
                    (Seq::<char>::empty(), i as int + 1),
                ));
                assert(acc@ + Seq::<char>::empty() =~= acc@);
            }
            return Option::Some((acc, i + 1));
        } else if c == '\\' {
            if i + 1 >= len {
                return Option::None;
            }
            let c2 = s.get_char(i + 1);
            let ghost acc_pre = acc@;
            if c2 == '"' {
                acc.append("\"");
                proof {
                    reveal_strlit("\"");
                }
            } else if c2 == '\\' {
                acc.append("\\");
                proof {
                    reveal_strlit("\\");
                }
            } else {
                return Option::None;
            }
            proof {
                match spec_parse_str_body(s@, i as int + 2) {
                    Option::Some(te) => {
                        assert(acc_pre + (seq![s@[i as int + 1]] + te.0) =~= acc@ + te.0);
                    },
                    Option::None => {},
                }
            }
            i = i + 2;
        } else {
            let piece = s.substring_char(i, i + 1);
            let ghost acc_pre = acc@;
            acc.append(piece);
            proof {
                match spec_parse_str_body(s@, i as int + 1) {
                    Option::Some(te) => {
                        assert(acc_pre + (seq![s@[i as int]] + te.0) =~= acc@ + te.0);
                    },
                    Option::None => {},
                }
            }
            i = i + 1;
        }
    }
    Option::None
}

/// The wire name of a quality preset.
pub open spec fn spec_quality_name(q: QualityPreset) -> Seq<char> {
    match q {
        QualityPreset::Fast => "fast"@,
        QualityPreset::Balanced => "balanced"@,
        QualityPreset::Quality => "quality"@,
    }
}

/// An optional string field: a string literal or `null`.
pub open spec fn enc_opt_str(o: Option<Seq<char>>) -> Seq<char> {
    match o {
        Option::Some(s) => enc_str_lit(s),
        Option::None => "null"@,
    }
}

/// An optional number field: decimal digits or `null`.
pub open spec fn enc_opt_num(o: Option<u64>) -> Seq<char> {
    match o {
        Option::Some(n) => dec_digits(n as nat),
        Option::None => "null"@,
    }
}

/// An optional quality preset: its quoted name or `null`.
pub open spec fn enc_quality(o: Option<QualityPreset>) -> Seq<char> {
    match o {
        Option::Some(q) => seq!['"'] + spec_quality_name(q) + seq!['"'],
        Option::None => "null"@,
    }
}

/// The canonical rendering of a prediction request.
pub open spec fn spec_enc_request(r: PredictionRequestView) -> Seq<char> {
    "{\"model_type\":\""@ + r.model_type.spec_model_name() + "\""@ + ",\"model_cid\":"@
        + enc_str_lit(r.model_cid) + ",\"image_url\":"@ + enc_opt_str(r.image_url)
        + ",\"prompt\":"@ + enc_opt_str(r.prompt) + ",\"quality_preset\":"@ + enc_quality(
        r.quality_preset,
    ) + "}"@
}

/// Expect the literal `lit` at `i`.
pub open spec fn dec_lit(s: Seq<char>, i: int, lit: Seq<char>) -> Option<int> {
    if first_at(s, lit, i) {
        Option::Some(i + lit.len())
    } else {
        Option::None
    }
}

/// Read the model tag with its closing quote.
pub open spec fn dec_model_type(s: Seq<char>, i: int) -> Option<(ModelType, int)> {
    if first_at(s, "covid_xray\""@, i) {
        Option::Some((ModelType::CovidXRay, i + "covid_xray\""@.len()))
    } else if first_at(s, "stable_diffusion\""@, i) {
        Option::Some((ModelType::StableDiffusion, i + "stable_diffusion\""@.len()))
    } else {
        Option::None
    }
}

/// Read an optional string field.
pub open spec fn dec_opt_str(s: Seq<char>, i: int) -> Option<(Option<Seq<char>>, int)> {
    if first_at(s, "null"@, i) {
        Option::Some((Option::None, i + "null"@.len()))
    } else {
        match spec_parse_str(s, i) {
            Option::Some((v, e)) => Option::Some((Option::Some(v), e)),
            Option::None => Option::None,
        }
    }
}

/// Read an optional quality preset.
pub open spec fn dec_quality(s: Seq<char>, i: int) -> Option<(Option<QualityPreset>, int)> {
    if first_at(s, "null"@, i) {
        Option::Some((Option::None, i + "null"@.len()))
    } else if first_at(s, "\"fast\""@, i) {
        Option::Some((Option::Some(QualityPreset::Fast), i + "\"fast\""@.len()))
    } else if first_at(s, "\"balanced\""@, i) {
        Option::Some((Option::Some(QualityPreset::Balanced), i + "\"balanced\""@.len()))
    } else if first_at(s, "\"quality\""@, i) {
        Option::Some((Option::Some(QualityPreset::Quality), i + "\"quality\""@.len()))
    } else {
        Option::None
    }
}

/// The canonical parse of a prediction request: the exact field order the
/// encoder writes, consuming the whole input.
pub open spec fn spec_dec_request(s: Seq<char>) -> Option<PredictionRequestView> {
    match dec_lit(s, 0, "{\"model_type\":\""@) {
        Option::None => Option::None,
        Option::Some(i1) => match dec_model_type(s, i1) {
            Option::None => Option::None,
            Option::Some((mt, i2)) => match dec_lit(s, i2, ",\"model_cid\":"@) {
                Option::None => Option::None,
                Option::Some(i3) => match spec_parse_str(s, i3) {
                    Option::None => Option::None,
                    Option::Some((cid, i4)) => match dec_lit(s, i4, ",\"image_url\":"@) {
                        Option::None => Option::None,
                        Option::Some(i5) => match dec_opt_str(s, i5) {
                            Option::None => Option::None,
                            Option::Some((img, i6)) => match dec_lit(s, i6, ",\"prompt\":"@) {
                                Option::None => Option::None,
                                Option::Some(i7) => match dec_opt_str(s, i7) {
                                    Option::None => Option::None,
                                    Option::Some((pr, i8)) => match dec_lit(
                                        s,
                                        i8,
                                        ",\"quality_preset\":"@,
                                    ) {
                                        Option::None => Option::None,
                                        Option::Some(i9) => match dec_quality(s, i9) {
                                            Option::None => Option::None,
                                            Option::Some((qp, i10)) => match dec_lit(
                                                s,
                                                i10,
                                                "}"@,
                                            ) {
                                                Option::None => Option::None,
                                                Option::Some(i11) => if i11 == s.len() {
                                                    Option::Some(
                                                        PredictionRequestView {
                                                            model_type: mt,
                                                            model_cid: cid,
                                                            image_url: img,
                                                            prompt: pr,
                                                            quality_preset: qp,
                                                        },
                                                    )
                                                } else {
                                                    Option::None
                                                },
                                            },
                                        },
                                    },
                                },
                            },
                        },
                    },
                },
            },
        },
    }
}

/// A literal placed between a prefix and a suffix is found there.
pub proof fn lemma_first_at_concat(a: Seq<char>, b: Seq<char>, c: Seq<char>, s: Seq<char>)
    requires
        s == a + b + c,
    ensures
        first_at(s, b, a.len() as int),
        dec_lit(s, a.len() as int, b) == Option::Some(a.len() + b.len() as int),
{
    assert(s.subrange(a.len() as int, a.len() + b.len() as int) =~= b);
}

/// A string literal placed between a prefix and a suffix parses back to
/// its content.
pub proof fn lemma_parse_str_concat(a: Seq<char>, x: Seq<char>, c: Seq<char>, s: Seq<char>)
    requires
        s == a + enc_str_lit(x) + c,
    ensures
        spec_parse_str(s, a.len() as int) == Option::Some(
            (x, a.len() + enc_str_lit(x).len() as int),
        ),
{
    let i = a.len() as int;
    assert(s[i] == enc_str_lit(x)[0]);
    assert(s[i] == '"');
    assert(s.subrange(i + 1, i + 1 + esc(x).len() + 1) =~= esc(x) + seq!['"']) by {
        assert forall|k: int| 0 <= k < esc(x).len() + 1 implies s.subrange(
            i + 1,
            i + 1 + esc(x).len() + 1,
        )[k] == (esc(x) + seq!['"'])[k] by {
            assert(s[i + 1 + k] == enc_str_lit(x)[1 + k]);
        }
    }
    lemma_parse_of_esc(s, i + 1, x);
}

/// The cumulative offsets of the request encoding's pieces.
pub open spec fn req_offs(v: PredictionRequestView) -> Seq<int> {
    let i1 = "{\"model_type\":\""@.len() as int;
    let i2 = i1 + v.model_type.spec_model_name().len() + 1;
    let i3 = i2 + ",\"model_cid\":"@.len();
    let i4 = i3 + enc_str_lit(v.model_cid).len();
    let i5 = i4 + ",\"image_url\":"@.len();
    let i6 = i5 + enc_opt_str(v.image_url).len();
    let i7 = i6 + ",\"prompt\":"@.len();
    let i8 = i7 + enc_opt_str(v.prompt).len();
    let i9 = i8 + ",\"quality_preset\":"@.len();
    let i10 = i9 + enc_quality(v.quality_preset).len();
    let i11 = i10 + 1;
    seq![i1, i2, i3, i4, i5, i6, i7, i8, i9, i10, i11]
}

/// The request encoding, split at its pieces.
proof fn lemma_req_concat(v: PredictionRequestView)
    ensures
        spec_enc_request(v) == "{\"model_type\":\""@ + (v.model_type.spec_model_name()
            + "\""@) + ",\"model_cid\":"@ + enc_str_lit(v.model_cid) + ",\"image_url\":"@
            + enc_opt_str(v.image_url) + ",\"prompt\":"@ + enc_opt_str(v.prompt)
            + ",\"quality_preset\":"@ + enc_quality(v.quality_preset) + "}"@,
{
    assert(spec_enc_request(v) =~= "{\"model_type\":\""@ + (v.model_type.spec_model_name()
        + "\""@) + ",\"model_cid\":"@ + enc_str_lit(v.model_cid) + ",\"image_url\":"@
        + enc_opt_str(v.image_url) + ",\"prompt\":"@ + enc_opt_str(v.prompt)
        + ",\"quality_preset\":"@ + enc_quality(v.quality_preset) + "}"@);
}

/// Steps one to four of the request parse: the head literal, the model
/// tag, the cid label and the cid literal.
#[verifier::rlimit(100)]
proof fn lemma_req_rt_head(v: PredictionRequestView)
    ensures
        ({
            let s = spec_enc_request(v);
            let o = req_offs(v);
            &&& dec_lit(s, 0, "{\"model_type\":\""@) == Option::Some(o[0])
            &&& dec_model_type(s, o[0]) == Option::Some((v.model_type, o[1]))
            &&& dec_lit(s, o[1], ",\"model_cid\":"@) == Option::Some(o[2])
            &&& spec_parse_str(s, o[2]) == Option::Some((v.model_cid, o[3]))
        }),
{
    let s = spec_enc_request(v);
    let o = req_offs(v);
    let l1 = "{\"model_type\":\""@;
    let p2 = v.model_type.spec_model_name() + "\""@;
    let l3 = ",\"model_cid\":"@;
    let p4 = enc_str_lit(v.model_cid);
    let rest4 = ",\"image_url\":"@ + enc_opt_str(v.image_url) + ",\"prompt\":"@
        + enc_opt_str(v.prompt) + ",\"quality_preset\":"@ + enc_quality(v.quality_preset)
        + "}"@;
    lemma_req_concat(v);
    assert(s =~= Seq::<char>::empty() + l1 + (p2 + l3 + p4 + rest4));
    lemma_first_at_concat(Seq::<char>::empty(), l1, p2 + l3 + p4 + rest4, s);
    reveal_strlit("covid_xray");
    reveal_strlit("covid_xray\"");
    reveal_strlit("stable_diffusion");
    reveal_strlit("stable_diffusion\"");
    reveal_strlit("\"");
    match v.model_type {
        ModelType::CovidXRay => {
            assert(p2 =~= "covid_xray\""@);
            assert(s =~= l1 + "covid_xray\""@ + (l3 + p4 + rest4));
            lemma_first_at_concat(l1, "covid_xray\""@, l3 + p4 + rest4, s);
            assert(dec_model_type(s, o[0]) == Option::Some((ModelType::CovidXRay, o[1])));
        },
        ModelType::StableDiffusion => {
            assert(p2 =~= "stable_diffusion\""@);
            assert(s =~= l1 + "stable_diffusion\""@ + (l3 + p4 + rest4));
            lemma_first_at_concat(l1, "stable_diffusion\""@, l3 + p4 + rest4, s);
            assert(s[o[0]] == 's');
            assert(!first_at(s, "covid_xray\""@, o[0])) by {
                if first_at(s, "covid_xray\""@, o[0]) {
                    assert(s.subrange(o[0], o[0] + "covid_xray\""@.len() as int)[0] == 'c');
                }
            }
            assert(dec_model_type(s, o[0]) == Option::Some((ModelType::StableDiffusion, o[1])));
        },
    }
    assert(s =~= (l1 + p2) + l3 + (p4 + rest4));
    lemma_first_at_concat(l1 + p2, l3, p4 + rest4, s);
    assert(s =~= (l1 + p2 + l3) + enc_str_lit(v.model_cid) + rest4);
    lemma_parse_str_concat(l1 + p2 + l3, v.model_cid, rest4, s);
}

/// Steps five to eight of the request parse: the two optional string
/// fields with their labels.
#[verifier::rlimit(100)]
proof fn lemma_req_rt_mid(v: PredictionRequestView)
    ensures
        ({
            let s = spec_enc_request(v);
            let o = req_offs(v);
            &&& dec_lit(s, o[3], ",\"image_url\":"@) == Option::Some(o[4])
            &&& dec_opt_str(s, o[4]) == Option::Some((v.image_url, o[5]))
            &&& dec_lit(s, o[5], ",\"prompt\":"@) == Option::Some(o[6])
            &&& dec_opt_str(s, o[6]) == Option::Some((v.prompt, o[7]))
        }),
{
    let s = spec_enc_request(v);
    let o = req_offs(v);
    let a4 = "{\"model_type\":\""@ + (v.model_type.spec_model_name() + "\""@)
        + ",\"model_cid\":"@ + enc_str_lit(v.model_cid);
    let l5 = ",\"image_url\":"@;
    let p6 = enc_opt_str(v.image_url);
    let l7 = ",\"prompt\":"@;
    let p8 = enc_opt_str(v.prompt);
    let rest8 = ",\"quality_preset\":"@ + enc_quality(v.quality_preset) + "}"@;
    lemma_req_concat(v);
    reveal_strlit("\"");
    assert(a4.len() == o[3]);
    assert(s =~= a4 + l5 + (p6 + l7 + p8 + rest8));
    lemma_first_at_concat(a4, l5, p6 + l7 + p8 + rest8, s);
    reveal_strlit("null");
    match v.image_url {
        Option::None => {
            assert(p6 =~= "null"@);
            assert(s =~= (a4 + l5) + "null"@ + (l7 + p8 + rest8));
            lemma_first_at_concat(a4 + l5, "null"@, l7 + p8 + rest8, s);
            assert(dec_opt_str(s, o[4]) == Option::Some((Option::None::<Seq<char>>, o[5])));
        },
        Option::Some(x) => {
            assert(s =~= (a4 + l5) + enc_str_lit(x) + (l7 + p8 + rest8));
            lemma_parse_str_concat(a4 + l5, x, l7 + p8 + rest8, s);
            assert(s[o[4]] == enc_str_lit(x)[0]);
            assert(s[o[4]] == '"');
            assert(!first_at(s, "null"@, o[4])) by {
                if first_at(s, "null"@, o[4]) {
                    assert(s.subrange(o[4], o[4] + "null"@.len() as int)[0] == 'n');
                }
            }
            assert(dec_opt_str(s, o[4]) == Option::Some((Option::Some(x), o[5])));
        },
    }
    assert(s =~= (a4 + l5 + p6) + l7 + (p8 + rest8));
    lemma_first_at_concat(a4 + l5 + p6, l7, p8 + rest8, s);
    match v.prompt {
        Option::None => {
            assert(p8 =~= "null"@);
            assert(s =~= (a4 + l5 + p6 + l7) + "null"@ + rest8);
            lemma_first_at_concat(a4 + l5 + p6 + l7, "null"@, rest8, s);
            assert(dec_opt_str(s, o[6]) == Option::Some((Option::None::<Seq<char>>, o[7])));
        },
        Option::Some(x) => {
            assert(s =~= (a4 + l5 + p6 + l7) + enc_str_lit(x) + rest8);
            lemma_parse_str_concat(a4 + l5 + p6 + l7, x, rest8, s);
            assert(s[o[6]] == enc_str_lit(x)[0]);
            assert(s[o[6]] == '"');
            assert(!first_at(s, "null"@, o[6])) by {
                if first_at(s, "null"@, o[6]) {
                    assert(s.subrange(o[6], o[6] + "null"@.len() as int)[0] == 'n');
                }
            }
            assert(dec_opt_str(s, o[6]) == Option::Some((Option::Some(x), o[7])));
        },
    }
}

/// The last steps of the request parse: the quality preset and the
/// closing brace, ending exactly at the input's end.
#[verifier::rlimit(100)]
proof fn lemma_req_rt_tail(v: PredictionRequestView)
    ensures
        ({
            let s = spec_enc_request(v);
            let o = req_offs(v);
            &&& dec_lit(s, o[7], ",\"quality_preset\":"@) == Option::Some(o[8])
            &&& dec_quality(s, o[8]) == Option::Some((v.quality_preset, o[9]))
            &&& dec_lit(s, o[9], "}"@) == Option::Some(o[10])
            &&& o[10] == s.len()
        }),
{
    let s = spec_enc_request(v);
    let o = req_offs(v);
    let a8 = "{\"model_type\":\""@ + (v.model_type.spec_model_name() + "\""@)
        + ",\"model_cid\":"@ + enc_str_lit(v.model_cid) + ",\"image_url\":"@
        + enc_opt_str(v.image_url) + ",\"prompt\":"@ + enc_opt_str(v.prompt);
    let l9 = ",\"quality_preset\":"@;
    let p10 = enc_quality(v.quality_preset);
    let l11 = "}"@;
    lemma_req_concat(v);
    reveal_strlit("\"");
    assert(a8.len() == o[7]);
    assert(s =~= a8 + l9 + (p10 + l11));
    lemma_first_at_concat(a8, l9, p10 + l11, s);
    reveal_strlit("null");
    reveal_strlit("\"fast\"");
    reveal_strlit("\"balanced\"");
    reveal_strlit("\"quality\"");
    reveal_strlit("fast");
    reveal_strlit("balanced");
    reveal_strlit("quality");
    reveal_strlit("}");
    let pre9 = a8 + l9;
    match v.quality_preset {
        Option::None => {
            assert(p10 =~= "null"@);
            assert(s =~= pre9 + "null"@ + l11);
            lemma_first_at_concat(pre9, "null"@, l11, s);
            assert(dec_quality(s, o[8]) == Option::Some((Option::None::<QualityPreset>, o[9])));
        },
        Option::Some(q) => {
            let lit = seq!['"'] + spec_quality_name(q) + seq!['"'];
            assert(s =~= pre9 + lit + l11);
            lemma_first_at_concat(pre9, lit, l11, s);
            assert(s[o[8]] == lit[0]);
            assert(s[o[8]] == '"');
            assert(!first_at(s, "null"@, o[8])) by {
                if first_at(s, "null"@, o[8]) {
                    assert(s.subrange(o[8], o[8] + "null"@.len() as int)[0] == 'n');
                }
            }
            match q {
                QualityPreset::Fast => {
                    assert(lit =~= "\"fast\""@);
                    assert(dec_quality(s, o[8]) == Option::Some(
                        (Option::Some(QualityPreset::Fast), o[9]),
                    ));
                },
                QualityPreset::Balanced => {
                    assert(lit =~= "\"balanced\""@);
                    assert(s[o[8] + 1] == 'b');
                    assert(!first_at(s, "\"fast\""@, o[8])) by {
                        if first_at(s, "\"fast\""@, o[8]) {
                            assert(s.subrange(o[8], o[8] + "\"fast\""@.len() as int)[1] == 'f');
                        }
                    }
                    assert(dec_quality(s, o[8]) == Option::Some(
                        (Option::Some(QualityPreset::Balanced), o[9]),
                    ));
                },
                QualityPreset::Quality => {
                    assert(lit =~= "\"quality\""@);
                    assert(s[o[8] + 1] == 'q');
                    assert(!first_at(s, "\"fast\""@, o[8])) by {
                        if first_at(s, "\"fast\""@, o[8]) {
                            assert(s.subrange(o[8], o[8] + "\"fast\""@.len() as int)[1] == 'f');
                        }
                    }
                    assert(!first_at(s, "\"balanced\""@, o[8])) by {
                        if first_at(s, "\"balanced\""@, o[8]) {
                            assert(s.subrange(o[8], o[8] + "\"balanced\""@.len() as int)[1]
                                == 'b');
                        }
                    }
                    assert(dec_quality(s, o[8]) == Option::Some(
                        (Option::Some(QualityPreset::Quality), o[9]),
                    ));
                },
            }
        },
    }
    assert(s =~= (pre9 + p10) + l11 + Seq::<char>::empty());
    lemma_first_at_concat(pre9 + p10, l11, Seq::<char>::empty(), s);
    assert(o[10] == s.len());
}

/// The request round trip: a prediction request rendered canonically and
/// parsed back is the original, for every request value.
#[verifier::rlimit(100)]
pub proof fn lemma_request_round_trip(v: PredictionRequestView)
    ensures
        spec_dec_request(spec_enc_request(v)) == Option::Some(v),
{
    lemma_req_rt_head(v);
    lemma_req_rt_mid(v);
    lemma_req_rt_tail(v);
    let s = spec_enc_request(v);
    let o = req_offs(v);
    assert(spec_dec_request(s) == Option::Some(
        PredictionRequestView {
            model_type: v.model_type,
            model_cid: v.model_cid,
            image_url: v.image_url,
            prompt: v.prompt,
            quality_preset: v.quality_preset,
        },
    ));
    assert(PredictionRequestView {
        model_type: v.model_type,
        model_cid: v.model_cid,
        image_url: v.image_url,
        prompt: v.prompt,
        quality_preset: v.quality_preset,
    } =~= v);
}


/// A boolean field.
pub open spec fn enc_bool(b: bool) -> Seq<char> {
    if b {
        "true"@
    } else {
        "false"@
    }
}

/// One named parameter: a name literal, a colon, a value literal.
pub open spec fn enc_param_item(p: ParamEntryView) -> Seq<char> {
    enc_str_lit(p.name) + seq![':'] + enc_str_lit(p.value)
}

/// The comma-separated parameter items.
pub open spec fn enc_params_items(ps: Seq<ParamEntryView>) -> Seq<char>
    decreases ps.len(),
{
    if ps.len() == 0 {
        Seq::empty()
    } else if ps.len() == 1 {
        enc_param_item(ps[0])
    } else {
        enc_param_item(ps[0]) + seq![','] + enc_params_items(ps.skip(1))
    }
}

/// An optional parameter map: a brace-enclosed item list or `null`.
pub open spec fn enc_params(o: Option<Seq<ParamEntryView>>) -> Seq<char> {
    match o {
        Option::Some(ps) => seq!['{'] + enc_params_items(ps) + seq!['}'],
        Option::None => "null"@,
    }
}

/// The canonical rendering of a prediction response.
pub open spec fn spec_enc_response(r: PredictionResponseView) -> Seq<char> {
    "{\"success\":"@ + enc_bool(r.success) + ",\"prompt\":"@ + enc_opt_str(r.prompt)
        + ",\"generation_time_ms\":"@ + enc_opt_num(r.generation_time_ms) + ",\"parameters\":"@
        + enc_params(r.parameters) + ",\"timestamp\":"@ + enc_opt_str(r.timestamp)
        + ",\"image_base64\":"@ + enc_opt_str(r.image_base64) + ",\"error\":"@ + enc_opt_str(
        r.error,
    ) + "}"@
}

/// Read a boolean field.
pub open spec fn dec_bool(s: Seq<char>, i: int) -> Option<(bool, int)> {
    if first_at(s, "true"@, i) {
        Option::Some((true, i + "true"@.len()))
    } else if first_at(s, "false"@, i) {
        Option::Some((false, i + "false"@.len()))
    } else {
        Option::None
    }
}

/// The length of the digit run beginning at `i`.
pub open spec fn digit_run(s: Seq<char>, i: int) -> int
    decreases s.len() - i,
{
    if i < 0 || i >= s.len() || !is_digit(s[i]) {
        0
    } else {
        1 + digit_run(s, i + 1)
    }
}

/// Read a number: the maximal digit run, as a value that must fit.
pub open spec fn dec_num(s: Seq<char>, i: int) -> Option<(u64, int)> {
    let k = digit_run(s, i);
    if k == 0 {
        Option::None
    } else {
        let d = s.subrange(i, i + k);
        if digits_val(d) > u64::MAX {
            Option::None
        } else {
            Option::Some((digits_val(d) as u64, i + k))
        }
    }
}

/// Read an optional number field.
pub open spec fn dec_opt_num(s: Seq<char>, i: int) -> Option<(Option<u64>, int)> {
    if first_at(s, "null"@, i) {
        Option::Some((Option::None, i + "null"@.len()))
    } else {
        match dec_num(s, i) {
            Option::Some((n, e)) => Option::Some((Option::Some(n), e)),
            Option::None => Option::None,
        }
    }
}

/// Read the parameter items up to and including the closing brace.
pub open spec fn dec_params_items(s: Seq<char>, i: int) -> Option<(Seq<ParamEntryView>, int)>
    decreases s.len() - i,
    via dec_params_items_dec
{
    match spec_parse_str(s, i) {
        Option::None => Option::None,
        Option::Some((nm, j)) => if !(j < s.len() && s[j] == ':') {
            Option::None
        } else {
            match spec_parse_str(s, j + 1) {
                Option::None => Option::None,
                Option::Some((vl, k)) => if k < s.len() && s[k] == ',' {
                    match dec_params_items(s, k + 1) {
                        Option::None => Option::None,
                        Option::Some((rest, e)) => Option::Some(
                            (seq![ParamEntryView { name: nm, value: vl }] + rest, e),
                        ),
                    }
                } else if k < s.len() && s[k] == '}' {
                    Option::Some((seq![ParamEntryView { name: nm, value: vl }], k + 1))
                } else {
                    Option::None
                },
            }
        },
    }
}

#[via_fn]
proof fn dec_params_items_dec(s: Seq<char>, i: int) {
    lemma_parse_str_body_bounds(s, i + 1);
    match spec_parse_str(s, i) {
        Option::Some((nm, j)) => {
            lemma_parse_str_body_bounds(s, j + 2);
        },
        Option::None => {},
    }
}

/// Read an optional parameter map.
pub open spec fn dec_params(s: Seq<char>, i: int) -> Option<
    (Option<Seq<ParamEntryView>>, int),
> {
    if first_at(s, "null"@, i) {
        Option::Some((Option::None, i + "null"@.len()))
    } else if first_at(s, seq!['{', '}'], i) {
        Option::Some((Option::Some(Seq::empty()), i + 2))
    } else if 0 <= i < s.len() && s[i] == '{' {
        match dec_params_items(s, i + 1) {
            Option::None => Option::None,
            Option::Some((ps, e)) => Option::Some((Option::Some(ps), e)),
        }
    } else {
        Option::None
    }
}

/// The canonical parse of a prediction response.
pub open spec fn spec_dec_response(s: Seq<char>) -> Option<PredictionResponseView> {
    match dec_lit(s, 0, "{\"success\":"@) {
        Option::None => Option::None,
        Option::Some(i1) => match dec_bool(s, i1) {
            Option::None => Option::None,
            Option::Some((sc, i2)) => match dec_lit(s, i2, ",\"prompt\":"@) {
                Option::None => Option::None,
                Option::Some(i3) => match dec_opt_str(s, i3) {
                    Option::None => Option::None,
                    Option::Some((pr, i4)) => match dec_lit(s, i4, ",\"generation_time_ms\":"@) {
                        Option::None => Option::None,
                        Option::Some(i5) => match dec_opt_num(s, i5) {
                            Option::None => Option::None,
                            Option::Some((gt, i6)) => match dec_lit(s, i6, ",\"parameters\":"@) {
                                Option::None => Option::None,
                                Option::Some(i7) => match dec_params(s, i7) {
                                    Option::None => Option::None,
                                    Option::Some((pm, i8)) => match dec_lit(
                                        s,
                                        i8,
                                        ",\"timestamp\":"@,
                                    ) {
                                        Option::None => Option::None,
                                        Option::Some(i9) => match dec_opt_str(s, i9) {
                                            Option::None => Option::None,
                                            Option::Some((ts, i10)) => match dec_lit(
                                                s,
                                                i10,
                                                ",\"image_base64\":"@,
                                            ) {
                                                Option::None => Option::None,
                                                Option::Some(i11) => match dec_opt_str(s, i11) {
                                                    Option::None => Option::None,
                                                    Option::Some((ib, i12)) => match dec_lit(
                                                        s,
                                                        i12,
                                                        ",\"error\":"@,
                                                    ) {
                                                        Option::None => Option::None,
                                                        Option::Some(i13) => match dec_opt_str(
                                                            s,
                                                            i13,
                                                        ) {
                                                            Option::None => Option::None,
                                                            Option::Some((er, i14)) => match
                                                                dec_lit(s, i14, "}"@) {
                                                                Option::None => Option::None,
                                                                Option::Some(i15) => if i15
                                                                    == s.len() {
                                                                    Option::Some(
                                                                        PredictionResponseView {
                                                                            success: sc,
                                                                            prompt: pr,
                                                                            generation_time_ms: gt,
                                                                            parameters: pm,
                                                                            timestamp: ts,
                                                                            image_base64: ib,
                                                                            error: er,
                                                                        },
                                                                    )
                                                                } else {
                                                                    Option::None
                                                                },
                                                            },
                                                        },
                                                    },
                                                },
                                            },
                                        },
                                    },
                                },
                            },
                        },
                    },
                },
            },
        },
    }
}

/// An all-digit piece bounded by a non-digit is the maximal digit run.
pub proof fn lemma_digit_run_exact(s: Seq<char>, i: int, d: Seq<char>)
    requires
        0 <= i,
        i + d.len() <= s.len(),
        all_digits(d),
        s.subrange(i, i + d.len()) == d,
        i + d.len() == s.len() || !is_digit(s[i + d.len()]),
    ensures
        digit_run(s, i) == d.len(),
    decreases d.len(),
{
    if d.len() == 0 {
        assert(i == s.len() || !is_digit(s[i]));
    } else {
        assert(s[i] == d[0]);
        assert(is_digit(d[0]));
        assert(s.subrange(i + 1, i + 1 + (d.len() - 1)) =~= d.skip(1)) by {
            assert forall|k: int| 0 <= k < d.len() - 1 implies s.subrange(
                i + 1,
                i + 1 + (d.len() - 1),
            )[k] == d.skip(1)[k] by {
                assert(s[i + 1 + k] == s.subrange(i, i + d.len())[1 + k]);
            }
        }
        assert(all_digits(d.skip(1)));
        lemma_digit_run_exact(s, i + 1, d.skip(1));
    }
}

/// A number placed between a prefix and a non-digit suffix reads back.
pub proof fn lemma_num_concat(a: Seq<char>, n: u64, c: Seq<char>, s: Seq<char>)
    requires
        s == a + dec_digits(n as nat) + c,
        c.len() > 0,
        !is_digit(c[0]),
    ensures
        dec_num(s, a.len() as int) == Option::Some(
            (n, a.len() + dec_digits(n as nat).len() as int),
        ),
{
    let d = dec_digits(n as nat);
    lemma_dec_digits_val(n as nat);
    let i = a.len() as int;
    assert(s.subrange(i, i + d.len()) =~= d);
    assert(s[i + d.len()] == c[0]);
    lemma_digit_run_exact(s, i, d);
    assert(digits_val(d) == n as nat);
}

/// A nonempty item list placed before its closing brace reads back.
#[verifier::rlimit(100)]
pub proof fn lemma_params_items_concat(
    a: Seq<char>,
    ps: Seq<ParamEntryView>,
    c: Seq<char>,
    s: Seq<char>,
)
    requires
        ps.len() >= 1,
        s == a + enc_params_items(ps) + seq!['}'] + c,
    ensures
        dec_params_items(s, a.len() as int) == Option::Some(
            (ps, a.len() + enc_params_items(ps).len() + 1 as int),
        ),
    decreases ps.len(),
{
    let i = a.len() as int;
    let nm = ps[0].name;
    let vl = ps[0].value;
    if ps.len() == 1 {
        assert(enc_params_items(ps) == enc_param_item(ps[0]));
        assert(s =~= a + enc_str_lit(nm) + (seq![':'] + enc_str_lit(vl) + seq!['}'] + c));
        lemma_parse_str_concat(a, nm, seq![':'] + enc_str_lit(vl) + seq!['}'] + c, s);
        let j = i + enc_str_lit(nm).len();
        assert(s[j] == ':');
        assert(s =~= (a + enc_str_lit(nm) + seq![':']) + enc_str_lit(vl) + (seq!['}'] + c));
        lemma_parse_str_concat(a + enc_str_lit(nm) + seq![':'], vl, seq!['}'] + c, s);
        let k = j + 1 + enc_str_lit(vl).len();
        assert(s[k] == '}');
        assert(s[k] != ',');
        assert(seq![ParamEntryView { name: nm, value: vl }] =~= ps);
    } else {
        let rest = ps.skip(1);
        assert(enc_params_items(ps) == enc_param_item(ps[0]) + seq![','] + enc_params_items(
            rest,
        ));
        assert(s =~= a + enc_str_lit(nm) + (seq![':'] + enc_str_lit(vl) + seq![',']
            + enc_params_items(rest) + seq!['}'] + c));
        lemma_parse_str_concat(a, nm, seq![':'] + enc_str_lit(vl) + seq![','] + enc_params_items(
            rest,
        ) + seq!['}'] + c, s);
        let j = i + enc_str_lit(nm).len();
        assert(s[j] == ':');
        assert(s =~= (a + enc_str_lit(nm) + seq![':']) + enc_str_lit(vl) + (seq![',']
            + enc_params_items(rest) + seq!['}'] + c));
        lemma_parse_str_concat(a + enc_str_lit(nm) + seq![':'], vl, seq![','] + enc_params_items(
            rest,
        ) + seq!['}'] + c, s);
        let k = j + 1 + enc_str_lit(vl).len();
        assert(s[k] == ',');
        let a2 = a + enc_str_lit(nm) + seq![':'] + enc_str_lit(vl) + seq![','];
        assert(s =~= a2 + enc_params_items(rest) + seq!['}'] + c);
        lemma_params_items_concat(a2, rest, c, s);
        assert(a2.len() == k + 1);
        assert(seq![ParamEntryView { name: nm, value: vl }] + rest =~= ps);
    }
}


/// The cumulative offsets of the response encoding's pieces.
pub open spec fn resp_offs(v: PredictionResponseView) -> Seq<int> {
    let i1 = "{\"success\":"@.len() as int;
    let i2 = i1 + enc_bool(v.success).len();
    let i3 = i2 + ",\"prompt\":"@.len();
    let i4 = i3 + enc_opt_str(v.prompt).len();
    let i5 = i4 + ",\"generation_time_ms\":"@.len();
    let i6 = i5 + enc_opt_num(v.generation_time_ms).len();
    let i7 = i6 + ",\"parameters\":"@.len();
    let i8 = i7 + enc_params(v.parameters).len();
    let i9 = i8 + ",\"timestamp\":"@.len();
    let i10 = i9 + enc_opt_str(v.timestamp).len();
    let i11 = i10 + ",\"image_base64\":"@.len();
    let i12 = i11 + enc_opt_str(v.image_base64).len();
    let i13 = i12 + ",\"error\":"@.len();
    let i14 = i13 + enc_opt_str(v.error).len();
    let i15 = i14 + 1;
    seq![i1, i2, i3, i4, i5, i6, i7, i8, i9, i10, i11, i12, i13, i14, i15]
}

/// The response encoding, split at its pieces.
proof fn lemma_resp_concat(v: PredictionResponseView)
    ensures
        spec_enc_response(v) == "{\"success\":"@ + enc_bool(v.success) + ",\"prompt\":"@
            + enc_opt_str(v.prompt) + ",\"generation_time_ms\":"@ + enc_opt_num(
            v.generation_time_ms,
        ) + ",\"parameters\":"@ + enc_params(v.parameters) + ",\"timestamp\":"@ + enc_opt_str(
            v.timestamp,
        ) + ",\"image_base64\":"@ + enc_opt_str(v.image_base64) + ",\"error\":"@ + enc_opt_str(
            v.error,
        ) + "}"@,
{
    assert(spec_enc_response(v) =~= "{\"success\":"@ + enc_bool(v.success) + ",\"prompt\":"@
        + enc_opt_str(v.prompt) + ",\"generation_time_ms\":"@ + enc_opt_num(
        v.generation_time_ms,
    ) + ",\"parameters\":"@ + enc_params(v.parameters) + ",\"timestamp\":"@ + enc_opt_str(
        v.timestamp,
    ) + ",\"image_base64\":"@ + enc_opt_str(v.image_base64) + ",\"error\":"@ + enc_opt_str(
        v.error,
    ) + "}"@);
}

/// An optional string piece placed between a prefix and a suffix reads
/// back.
#[verifier::rlimit(100)]
proof fn lemma_opt_str_concat(a: Seq<char>, o: Option<Seq<char>>, c: Seq<char>, s: Seq<char>)
    requires
        s == a + enc_opt_str(o) + c,
    ensures
        dec_opt_str(s, a.len() as int) == Option::Some(
            (o, a.len() + enc_opt_str(o).len() as int),
        ),
{
    let i = a.len() as int;
    reveal_strlit("null");
    match o {
        Option::None => {
            lemma_first_at_concat(a, "null"@, c, s);
        },
        Option::Some(x) => {
            lemma_parse_str_concat(a, x, c, s);
            assert(s[i] == enc_str_lit(x)[0]);
            assert(s[i] == '"');
            assert(!first_at(s, "null"@, i)) by {
                if first_at(s, "null"@, i) {
                    assert(s.subrange(i, i + "null"@.len() as int)[0] == 'n');
                }
            }
        },
    }
}

/// Steps one and two of the response parse: the head literal and the
/// success flag.
#[verifier::rlimit(100)]
proof fn lemma_resp_rt_a1(v: PredictionResponseView)
    ensures
        ({
            let s = spec_enc_response(v);
            let o = resp_offs(v);
            &&& dec_lit(s, 0, "{\"success\":"@) == Option::Some(o[0])
            &&& dec_bool(s, o[0]) == Option::Some((v.success, o[1]))
        }),
{
    let s = spec_enc_response(v);
    let o = resp_offs(v);
    let l1 = "{\"success\":"@;
    let p2 = enc_bool(v.success);
    let rest2 = ",\"prompt\":"@ + enc_opt_str(v.prompt) + ",\"generation_time_ms\":"@
        + enc_opt_num(v.generation_time_ms) + ",\"parameters\":"@ + enc_params(v.parameters)
        + ",\"timestamp\":"@ + enc_opt_str(v.timestamp) + ",\"image_base64\":"@ + enc_opt_str(
        v.image_base64,
    ) + ",\"error\":"@ + enc_opt_str(v.error) + "}"@;
    lemma_resp_concat(v);
    assert(s =~= Seq::<char>::empty() + l1 + (p2 + rest2));
    lemma_first_at_concat(Seq::<char>::empty(), l1, p2 + rest2, s);
    reveal_strlit("true");
    reveal_strlit("false");
    if v.success {
        assert(s =~= l1 + "true"@ + rest2);
        lemma_first_at_concat(l1, "true"@, rest2, s);
        assert(dec_bool(s, o[0]) == Option::Some((true, o[1])));
    } else {
        assert(s =~= l1 + "false"@ + rest2);
        lemma_first_at_concat(l1, "false"@, rest2, s);
        assert(s[o[0]] == 'f');
        assert(!first_at(s, "true"@, o[0])) by {
            if first_at(s, "true"@, o[0]) {
                assert(s.subrange(o[0], o[0] + "true"@.len() as int)[0] == 't');
            }
        }
        assert(dec_bool(s, o[0]) == Option::Some((false, o[1])));
    }
}

/// Steps three and four of the response parse: the prompt field.
#[verifier::rlimit(100)]
proof fn lemma_resp_rt_a2(v: PredictionResponseView)
    ensures
        ({
            let s = spec_enc_response(v);
            let o = resp_offs(v);
            &&& dec_lit(s, o[1], ",\"prompt\":"@) == Option::Some(o[2])
            &&& dec_opt_str(s, o[2]) == Option::Some((v.prompt, o[3]))
        }),
{
    let s = spec_enc_response(v);
    let o = resp_offs(v);
    let a2 = "{\"success\":"@ + enc_bool(v.success);
    let l3 = ",\"prompt\":"@;
    let p4 = enc_opt_str(v.prompt);
    let rest4 = ",\"generation_time_ms\":"@ + enc_opt_num(v.generation_time_ms)
        + ",\"parameters\":"@ + enc_params(v.parameters) + ",\"timestamp\":"@ + enc_opt_str(
        v.timestamp,
    ) + ",\"image_base64\":"@ + enc_opt_str(v.image_base64) + ",\"error\":"@ + enc_opt_str(
        v.error,
    ) + "}"@;
    lemma_resp_concat(v);
    assert(a2.len() == o[1]);
    assert(s =~= a2 + l3 + (p4 + rest4));
    lemma_first_at_concat(a2, l3, p4 + rest4, s);
    assert(s =~= (a2 + l3) + p4 + rest4);
    lemma_opt_str_concat(a2 + l3, v.prompt, rest4, s);
}

/// Steps five and six of the response parse: the generation time.
#[verifier::rlimit(100)]
proof fn lemma_resp_rt_b1(v: PredictionResponseView)
    ensures
        ({
            let s = spec_enc_response(v);
            let o = resp_offs(v);
            &&& dec_lit(s, o[3], ",\"generation_time_ms\":"@) == Option::Some(o[4])
            &&& dec_opt_num(s, o[4]) == Option::Some((v.generation_time_ms, o[5]))
        }),
{
    let s = spec_enc_response(v);
    let o = resp_offs(v);
    let a4 = "{\"success\":"@ + enc_bool(v.success) + ",\"prompt\":"@ + enc_opt_str(v.prompt);
    let l5 = ",\"generation_time_ms\":"@;
    let p6 = enc_opt_num(v.generation_time_ms);
    let l7 = ",\"parameters\":"@;
    let rest6 = l7 + enc_params(v.parameters) + ",\"timestamp\":"@ + enc_opt_str(v.timestamp)
        + ",\"image_base64\":"@ + enc_opt_str(v.image_base64) + ",\"error\":"@ + enc_opt_str(
        v.error,
    ) + "}"@;
    lemma_resp_concat(v);
    assert(a4.len() == o[3]);
    assert(s =~= a4 + l5 + (p6 + rest6));
    lemma_first_at_concat(a4, l5, p6 + rest6, s);
    reveal_strlit("null");
    match v.generation_time_ms {
        Option::None => {
            assert(p6 =~= "null"@);
            assert(s =~= (a4 + l5) + "null"@ + rest6);
            lemma_first_at_concat(a4 + l5, "null"@, rest6, s);
            assert(dec_opt_num(s, o[4]) == Option::Some((Option::None::<u64>, o[5])));
        },
        Option::Some(n) => {
            assert(p6 == dec_digits(n as nat));
            assert(s =~= (a4 + l5) + dec_digits(n as nat) + rest6);
            reveal_strlit(",\"parameters\":");
            assert(rest6[0] == l7[0]);
            assert(l7[0] == ',');
            assert(!is_digit(','));
            lemma_num_concat(a4 + l5, n, rest6, s);
            lemma_dec_digits_val(n as nat);
            assert(s[o[4]] == dec_digits(n as nat)[0]);
            assert(is_digit(s[o[4]]));
            assert(!first_at(s, "null"@, o[4])) by {
                if first_at(s, "null"@, o[4]) {
                    assert(s.subrange(o[4], o[4] + "null"@.len() as int)[0] == 'n');
                    assert(is_digit('n'));
                }
            }
            assert(dec_opt_num(s, o[4]) == Option::Some((Option::Some(n), o[5])));
        },
    }
}

/// Steps seven and eight of the response parse: the parameter map.
#[verifier::rlimit(100)]
proof fn lemma_resp_rt_b2(v: PredictionResponseView)
    ensures
        ({
            let s = spec_enc_response(v);
            let o = resp_offs(v);
            &&& dec_lit(s, o[5], ",\"parameters\":"@) == Option::Some(o[6])
            &&& dec_params(s, o[6]) == Option::Some((v.parameters, o[7]))
        }),
{
    let s = spec_enc_response(v);
    let o = resp_offs(v);
    let a6 = "{\"success\":"@ + enc_bool(v.success) + ",\"prompt\":"@ + enc_opt_str(v.prompt)
        + ",\"generation_time_ms\":"@ + enc_opt_num(v.generation_time_ms);
    let l7 = ",\"parameters\":"@;
    let p8 = enc_params(v.parameters);
    let rest8 = ",\"timestamp\":"@ + enc_opt_str(v.timestamp) + ",\"image_base64\":"@
        + enc_opt_str(v.image_base64) + ",\"error\":"@ + enc_opt_str(v.error) + "}"@;
    lemma_resp_concat(v);
    assert(a6.len() == o[5]);
    assert(s =~= a6 + l7 + (p8 + rest8));
    lemma_first_at_concat(a6, l7, p8 + rest8, s);
    reveal_strlit("null");
    match v.parameters {
        Option::None => {
            assert(p8 =~= "null"@);
            assert(s =~= (a6 + l7) + "null"@ + rest8);
            lemma_first_at_concat(a6 + l7, "null"@, rest8, s);
            assert(dec_params(s, o[6]) == Option::Some(
                (Option::None::<Seq<ParamEntryView>>, o[7]),
            ));
        },
        Option::Some(ps) => {
            if ps.len() == 0 {
                assert(p8 =~= seq!['{', '}']);
                assert(s =~= (a6 + l7) + seq!['{', '}'] + rest8);
                lemma_first_at_concat(a6 + l7, seq!['{', '}'], rest8, s);
                assert(s[o[6]] == '{');
                assert(!first_at(s, "null"@, o[6])) by {
                    if first_at(s, "null"@, o[6]) {
                        assert(s.subrange(o[6], o[6] + "null"@.len() as int)[0] == 'n');
                    }
                }
                assert(dec_params(s, o[6]) == Option::Some(
                    (Option::Some(Seq::<ParamEntryView>::empty()), o[7]),
                ));
            } else {
                assert(p8 =~= seq!['{'] + enc_params_items(ps) + seq!['}']);
                assert(s =~= (a6 + l7 + seq!['{']) + enc_params_items(ps) + seq!['}'] + rest8);
                lemma_params_items_concat(a6 + l7 + seq!['{'], ps, rest8, s);
                assert(s[o[6]] == p8[0]);
                assert(s[o[6]] == '{');
                assert(!first_at(s, "null"@, o[6])) by {
                    if first_at(s, "null"@, o[6]) {
                        assert(s.subrange(o[6], o[6] + "null"@.len() as int)[0] == 'n');
                    }
                }
                assert(enc_params_items(ps)[0] == enc_str_lit(ps[0].name)[0]);
                assert(s[o[6] + 1] == p8[1]);
                assert(s[o[6] + 1] == '"');
                assert(!first_at(s, seq!['{', '}'], o[6])) by {
                    if first_at(s, seq!['{', '}'], o[6]) {
                        assert(s.subrange(o[6], o[6] + 2)[1] == '}');
                    }
                }
                assert(dec_params(s, o[6]) == Option::Some((Option::Some(ps), o[7])));
            }
        },
    }
}

/// Steps nine to twelve of the response parse: the timestamp and the
/// image payload.
#[verifier::rlimit(100)]
proof fn lemma_resp_rt_c(v: PredictionResponseView)
    ensures
        ({
            let s = spec_enc_response(v);
            let o = resp_offs(v);
            &&& dec_lit(s, o[7], ",\"timestamp\":"@) == Option::Some(o[8])
            &&& dec_opt_str(s, o[8]) == Option::Some((v.timestamp, o[9]))
            &&& dec_lit(s, o[9], ",\"image_base64\":"@) == Option::Some(o[10])
            &&& dec_opt_str(s, o[10]) == Option::Some((v.image_base64, o[11]))
        }),
{
    let s = spec_enc_response(v);
    let o = resp_offs(v);
    let a8 = "{\"success\":"@ + enc_bool(v.success) + ",\"prompt\":"@ + enc_opt_str(v.prompt)
        + ",\"generation_time_ms\":"@ + enc_opt_num(v.generation_time_ms) + ",\"parameters\":"@
        + enc_params(v.parameters);
    let l9 = ",\"timestamp\":"@;
    let p10 = enc_opt_str(v.timestamp);
    let l11 = ",\"image_base64\":"@;
    let p12 = enc_opt_str(v.image_base64);
    let rest12 = ",\"error\":"@ + enc_opt_str(v.error) + "}"@;
    lemma_resp_concat(v);
    assert(a8.len() == o[7]);
    assert(s =~= a8 + l9 + (p10 + l11 + p12 + rest12));
    lemma_first_at_concat(a8, l9, p10 + l11 + p12 + rest12, s);
    assert(s =~= (a8 + l9) + p10 + (l11 + p12 + rest12));
    lemma_opt_str_concat(a8 + l9, v.timestamp, l11 + p12 + rest12, s);
    assert(s =~= (a8 + l9 + p10) + l11 + (p12 + rest12));
    lemma_first_at_concat(a8 + l9 + p10, l11, p12 + rest12, s);
    assert(s =~= (a8 + l9 + p10 + l11) + p12 + rest12);
    lemma_opt_str_concat(a8 + l9 + p10 + l11, v.image_base64, rest12, s);
}

/// The last steps of the response parse: the error field and the closing
/// brace, ending exactly at the input's end.
#[verifier::rlimit(100)]
proof fn lemma_resp_rt_d(v: PredictionResponseView)
    ensures
        ({
            let s = spec_enc_response(v);
            let o = resp_offs(v);
            &&& dec_lit(s, o[11], ",\"error\":"@) == Option::Some(o[12])
            &&& dec_opt_str(s, o[12]) == Option::Some((v.error, o[13]))
            &&& dec_lit(s, o[13], "}"@) == Option::Some(o[14])
            &&& o[14] == s.len()
        }),
{
    let s = spec_enc_response(v);
    let o = resp_offs(v);
    let a12 = "{\"success\":"@ + enc_bool(v.success) + ",\"prompt\":"@ + enc_opt_str(v.prompt)
        + ",\"generation_time_ms\":"@ + enc_opt_num(v.generation_time_ms) + ",\"parameters\":"@
        + enc_params(v.parameters) + ",\"timestamp\":"@ + enc_opt_str(v.timestamp)
        + ",\"image_base64\":"@ + enc_opt_str(v.image_base64);
    let l13 = ",\"error\":"@;
    let p14 = enc_opt_str(v.error);
    let l15 = "}"@;
    lemma_resp_concat(v);
    assert(a12.len() == o[11]);
    assert(s =~= a12 + l13 + (p14 + l15));
    lemma_first_at_concat(a12, l13, p14 + l15, s);
    assert(s =~= (a12 + l13) + p14 + l15);
    lemma_opt_str_concat(a12 + l13, v.error, l15, s);
    assert(s =~= (a12 + l13 + p14) + l15 + Seq::<char>::empty());
    lemma_first_at_concat(a12 + l13 + p14, l15, Seq::<char>::empty(), s);
    reveal_strlit("}");
    assert(o[14] == s.len());
}

/// The response round trip: a prediction response rendered canonically
/// and parsed back is the original, for every response value.
#[verifier::rlimit(100)]
pub proof fn lemma_response_round_trip(v: PredictionResponseView)
    ensures
        spec_dec_response(spec_enc_response(v)) == Option::Some(v),
{
    lemma_resp_rt_a1(v);
    lemma_resp_rt_a2(v);
    lemma_resp_rt_b1(v);
    lemma_resp_rt_b2(v);
    lemma_resp_rt_c(v);
    lemma_resp_rt_d(v);
    let s = spec_enc_response(v);
    assert(spec_dec_response(s) == Option::Some(
        PredictionResponseView {
            success: v.success,
            prompt: v.prompt,
            generation_time_ms: v.generation_time_ms,
            parameters: v.parameters,
            timestamp: v.timestamp,
            image_base64: v.image_base64,
            error: v.error,
        },
    ));
    assert(PredictionResponseView {
        success: v.success,
        prompt: v.prompt,
        generation_time_ms: v.generation_time_ms,
        parameters: v.parameters,
        timestamp: v.timestamp,
        image_base64: v.image_base64,
        error: v.error,
    } =~= v);
}


/// Expect the literal at `pos`, executably.
fn expect_lit(s: &str, pos: usize, lit: &str) -> (r: Option<usize>)
    ensures
        match r {
            Option::Some(e) => dec_lit(s@, pos as int, lit@) == Option::Some(e as int) && pos
                <= e <= s@.len(),
            Option::None => dec_lit(s@, pos as int, lit@) is None,
        },
{
    if match_at(s, lit, pos) {
        let sl = s.unicode_len();
        proof {
            assert(pos + lit@.len() <= sl);
        }
        Option::Some(pos + lit.unicode_len())
    } else {
        Option::None
    }
}

/// Read the model tag, executably.
fn parse_model_tag(s: &str, pos: usize) -> (r: Option<(ModelType, usize)>)
    ensures
        match r {
            Option::Some(ve) => dec_model_type(s@, pos as int) == Option::Some(
                (ve.0, ve.1 as int),
            ) && ve.1 <= s@.len(),
            Option::None => dec_model_type(s@, pos as int) is None,
        },
{
    match expect_lit(s, pos, "covid_xray\"") {
        Option::Some(e) => {
            return Option::Some((ModelType::CovidXRay, e));
        },
        Option::None => {},
    }
    match expect_lit(s, pos, "stable_diffusion\"") {
        Option::Some(e) => Option::Some((ModelType::StableDiffusion, e)),
        Option::None => Option::None,
    }
}

/// Read an optional string field, executably.
fn parse_opt_string(s: &str, pos: usize) -> (r: Option<(Option<String>, usize)>)
    ensures
        match r {
            Option::Some(ve) => dec_opt_str(s@, pos as int) == Option::Some(
                (crate::types::opt_view(ve.0), ve.1 as int),
            ) && ve.1 <= s@.len(),
            Option::None => dec_opt_str(s@, pos as int) is None,
        },
{
    match expect_lit(s, pos, "null") {
        Option::Some(e) => {
            return Option::Some((Option::None, e));
        },
        Option::None => {},
    }
    match parse_json_string(s, pos) {
        Option::Some((v, e)) => Option::Some((Option::Some(v), e)),
        Option::None => Option::None,
    }
}

/// Read an optional quality preset, executably.
fn parse_quality(s: &str, pos: usize) -> (r: Option<(Option<QualityPreset>, usize)>)
    ensures
        match r {
            Option::Some(ve) => dec_quality(s@, pos as int) == Option::Some(
                (ve.0, ve.1 as int),
            ) && ve.1 <= s@.len(),
            Option::None => dec_quality(s@, pos as int) is None,
        },
{
    match expect_lit(s, pos, "null") {
        Option::Some(e) => {
            return Option::Some((Option::None, e));
        },
        Option::None => {},
    }
    match expect_lit(s, pos, "\"fast\"") {
        Option::Some(e) => {
            return Option::Some((Option::Some(QualityPreset::Fast), e));
        },
        Option::None => {},
    }
    match expect_lit(s, pos, "\"balanced\"") {
        Option::Some(e) => {
            return Option::Some((Option::Some(QualityPreset::Balanced), e));
        },
        Option::None => {},
    }
    match expect_lit(s, pos, "\"quality\"") {
        Option::Some(e) => Option::Some((Option::Some(QualityPreset::Quality), e)),
        Option::None => Option::None,
    }
}

/// The canonical rendering of a prediction request, executably.
#[verifier::rlimit(100)]
pub fn encode_request(req: &PredictionRequest) -> (r: String)
    ensures
        r@ == spec_enc_request(req@),
{
    let mut out = String::from_str("{\"model_type\":\"");
    match req.model_type {
        ModelType::CovidXRay => out.append("covid_xray"),
        ModelType::StableDiffusion => out.append("stable_diffusion"),
    }
    out.append("\"");
    out.append(",\"model_cid\":");
    append_json_string(&mut out, req.model_cid.as_str());
    out.append(",\"image_url\":");
    match &req.image_url {
        Option::Some(u) => append_json_string(&mut out, u.as_str()),
        Option::None => out.append("null"),
    }
    out.append(",\"prompt\":");
    match &req.prompt {
        Option::Some(p) => append_json_string(&mut out, p.as_str()),
        Option::None => out.append("null"),
    }
    out.append(",\"quality_preset\":");
    match &req.quality_preset {
        Option::Some(q) => match q {
            QualityPreset::Fast => out.append("\"fast\""),
            QualityPreset::Balanced => out.append("\"balanced\""),
            QualityPreset::Quality => out.append("\"quality\""),
        },
        Option::None => out.append("null"),
    }
    out.append("}");
    proof {
        reveal_strlit("\"fast\"");
        reveal_strlit("\"balanced\"");
        reveal_strlit("\"quality\"");
        reveal_strlit("fast");
        reveal_strlit("balanced");
        reveal_strlit("quality");
        assert(out@ =~= spec_enc_request(req@));
    }
    out
}

/// The canonical parse of a prediction request, executably.
#[verifier::rlimit(100)]
pub fn decode_request(s: &str) -> (r: Option<PredictionRequest>)
    ensures
        match r {
            Option::Some(req) => spec_dec_request(s@) == Option::Some(req@),
            Option::None => spec_dec_request(s@) is None,
        },
{
    let i1 = match expect_lit(s, 0, "{\"model_type\":\"") {
        Option::Some(e) => e,
        Option::None => {
            return Option::None;
        },
    };
    let (mt, i2) = match parse_model_tag(s, i1) {
        Option::Some(ve) => ve,
        Option::None => {
            return Option::None;
        },
    };
    let i3 = match expect_lit(s, i2, ",\"model_cid\":") {
        Option::Some(e) => e,
        Option::None => {
            return Option::None;
        },
    };
    let (cid, i4) = match parse_json_string(s, i3) {
        Option::Some(ve) => ve,
        Option::None => {
            return Option::None;
        },
    };
    let i5 = match expect_lit(s, i4, ",\"image_url\":") {
        Option::Some(e) => e,
        Option::None => {
            return Option::None;
        },
    };
    let (img, i6) = match parse_opt_string(s, i5) {
        Option::Some(ve) => ve,
        Option::None => {
            return Option::None;
        },
    };
    let i7 = match expect_lit(s, i6, ",\"prompt\":") {
        Option::Some(e) => e,
        Option::None => {
            return Option::None;
        },
    };
    let (pr, i8) = match parse_opt_string(s, i7) {
        Option::Some(ve) => ve,
        Option::None => {
            return Option::None;
        },
    };
    let i9 = match expect_lit(s, i8, ",\"quality_preset\":") {
        Option::Some(e) => e,
        Option::None => {
            return Option::None;
        },
    };
    let (qp, i10) = match parse_quality(s, i9) {
        Option::Some(ve) => ve,
        Option::None => {
            return Option::None;
        },
    };
    let i11 = match expect_lit(s, i10, "}") {
        Option::Some(e) => e,
        Option::None => {
            return Option::None;
        },
    };
    if i11 != s.unicode_len() {
        return Option::None;
    }
    let req = PredictionRequest {
        model_type: mt,
        model_cid: cid,
        image_url: img,
        prompt: pr,
        quality_preset: qp,
    };
    proof {
        assert(spec_dec_request(s@) == Option::Some(req@));
    }
    Option::Some(req)
}

/// Whether the character at `j` is a digit, executably.
fn digit_at(s: &str, j: usize) -> (r: bool)
    requires
        j < s@.len(),
    ensures
        r == is_digit(s@[j as int]),
{
    let c = s.get_char(j);
    let v = c as u32;
    48 <= v && v <= 57
}

/// Read a number field, executably.
fn parse_number(s: &str, pos: usize) -> (r: Option<(u64, usize)>)
    ensures
        match r {
            Option::Some(ve) => dec_num(s@, pos as int) == Option::Some((ve.0, ve.1 as int))
                && ve.1 <= s@.len(),
            Option::None => dec_num(s@, pos as int) is None,
        },
{
    let len = s.unicode_len();
    if pos >= len {
        return Option::None;
    }
    let mut j: usize = pos;
    while j < len && digit_at(s, j)
        invariant
            pos <= j <= len,
            len == s@.len(),
            forall|t: int| pos <= t < j ==> is_digit(#[trigger] s@[t]),
        decreases len - j,
    {
        j = j + 1;
    }
    proof {
        assert(all_digits(s@.subrange(pos as int, j as int)));
        lemma_digit_run_exact(s@, pos as int, s@.subrange(pos as int, j as int));
        assert(digit_run(s@, pos as int) == j - pos);
    }
    if j == pos {
        return Option::None;
    }
    let piece = s.substring_char(pos, j);
    match parse_u64(piece) {
        Option::Some(n) => Option::Some((n, j)),
        Option::None => Option::None,
    }
}

/// Read an optional number field, executably.
fn parse_opt_number(s: &str, pos: usize) -> (r: Option<(Option<u64>, usize)>)
    ensures
        match r {
            Option::Some(ve) => dec_opt_num(s@, pos as int) == Option::Some(
                (ve.0, ve.1 as int),
            ) && ve.1 <= s@.len(),
            Option::None => dec_opt_num(s@, pos as int) is None,
        },
{
    match expect_lit(s, pos, "null") {
        Option::Some(e) => {
            return Option::Some((Option::None, e));
        },
        Option::None => {},
    }
    match parse_number(s, pos) {
        Option::Some((n, e)) => Option::Some((Option::Some(n), e)),
        Option::None => Option::None,
    }
}

/// Read a boolean field, executably.
fn parse_bool(s: &str, pos: usize) -> (r: Option<(bool, usize)>)
    ensures
        match r {
            Option::Some(ve) => dec_bool(s@, pos as int) == Option::Some((ve.0, ve.1 as int))
                && ve.1 <= s@.len(),
            Option::None => dec_bool(s@, pos as int) is None,
        },
{
    match expect_lit(s, pos, "true") {
        Option::Some(e) => {
            return Option::Some((true, e));
        },
        Option::None => {},
    }
    match expect_lit(s, pos, "false") {
        Option::Some(e) => Option::Some((false, e)),
        Option::None => Option::None,
    }
}

/// Read the parameter items up to their closing brace, executably.
fn parse_params_items(s: &str, pos: usize) -> (r: Option<(Vec<ParamEntry>, usize)>)
    ensures
        match r {
            Option::Some(ve) => dec_params_items(s@, pos as int) == Option::Some(
                (crate::types::params_view(ve.0@), ve.1 as int),
            ) && ve.1 <= s@.len(),
            Option::None => dec_params_items(s@, pos as int) is None,
        },
    decreases s@.len() - pos,
{
    let len = s.unicode_len();
    let (name, j) = match parse_json_string(s, pos) {
        Option::Some(ve) => ve,
        Option::None => {
            return Option::None;
        },
    };
    if j >= len || s.get_char(j) != ':' {
        return Option::None;
    }
    let (value, k) = match parse_json_string(s, j + 1) {
        Option::Some(ve) => ve,
        Option::None => {
            return Option::None;
        },
    };
    let ghost nm = name@;
    let ghost vl = value@;
    let entry = ParamEntry { name, value };
    if k < len && s.get_char(k) == ',' {
        match parse_params_items(s, k + 1) {
            Option::Some((rest, e)) => {
                let mut rest = rest;
                let ghost rest_view = rest@;
                let mut out: Vec<ParamEntry> = Vec::new();
                out.push(entry);
                out.append(&mut rest);
                proof {
                    assert(crate::types::params_view(out@) =~= seq![
                        ParamEntryView { name: nm, value: vl },
                    ] + crate::types::params_view(rest_view));
                }
                Option::Some((out, e))
            },
            Option::None => Option::None,
        }
    } else if k < len && s.get_char(k) == '}' {
        let mut out: Vec<ParamEntry> = Vec::new();
        out.push(entry);
        proof {
            assert(crate::types::params_view(out@) =~= seq![
                ParamEntryView { name: nm, value: vl },
            ]);
        }
        Option::Some((out, k + 1))
    } else {
        Option::None
    }
}

/// Read an optional parameter map, executably.
fn parse_params(s: &str, pos: usize) -> (r: Option<(Option<Vec<ParamEntry>>, usize)>)
    ensures
        match r {
            Option::Some(ve) => dec_params(s@, pos as int) == Option::Some(
                (
                    match ve.0 {
                        Option::Some(v) => Option::Some(crate::types::params_view(v@)),
                        Option::None => Option::None,
                    },
                    ve.1 as int,
                ),
            ) && ve.1 <= s@.len(),
            Option::None => dec_params(s@, pos as int) is None,
        },
{
    match expect_lit(s, pos, "null") {
        Option::Some(e) => {
            return Option::Some((Option::None, e));
        },
        Option::None => {},
    }
    match expect_lit(s, pos, "{}") {
        Option::Some(e) => {
            proof {
                reveal_strlit("{}");
                assert("{}"@ =~= seq!['{', '}']);
                assert(crate::types::params_view(Seq::<ParamEntry>::empty()) =~= Seq::<
                    ParamEntryView,
                >::empty());
            }
            let out: Vec<ParamEntry> = Vec::new();
            return Option::Some((Option::Some(out), e));
        },
        Option::None => {},
    }
    proof {
        reveal_strlit("{}");
        assert("{}"@ =~= seq!['{', '}']);
    }
    let len = s.unicode_len();
    if pos >= len || s.get_char(pos) != '{' {
        return Option::None;
    }
    match parse_params_items(s, pos + 1) {
        Option::Some((v, e)) => Option::Some((Option::Some(v), e)),
        Option::None => Option::None,
    }
}

/// One more item appended to the item list extends its rendering.
proof fn lemma_items_snoc(ps: Seq<ParamEntryView>, p: ParamEntryView)
    ensures
        enc_params_items(ps.push(p)) == if ps.len() == 0 {
            enc_param_item(p)
        } else {
            enc_params_items(ps) + seq![','] + enc_param_item(p)
        },
    decreases ps.len(),
{
    if ps.len() == 0 {
        assert(ps.push(p)[0] == p);
        assert(enc_params_items(ps.push(p)) == enc_param_item(p));
    } else if ps.len() == 1 {
        assert(ps.push(p)[0] == ps[0]);
        assert(ps.push(p).skip(1) =~= seq![p]);
        assert(enc_params_items(seq![p]) == enc_param_item(p));
        assert(enc_params_items(ps.push(p)) =~= enc_params_items(ps) + seq![',']
            + enc_param_item(p));
    } else {
        assert(ps.push(p)[0] == ps[0]);
        assert(ps.push(p).skip(1) =~= ps.skip(1).push(p));
        lemma_items_snoc(ps.skip(1), p);
        assert(enc_params_items(ps.push(p)) =~= enc_params_items(ps) + seq![',']
            + enc_param_item(p));
    }
}

/// The canonical rendering of a prediction response, executably.
#[verifier::rlimit(100)]
pub fn encode_response(resp: &PredictionResponse) -> (r: String)
    ensures
        r@ == spec_enc_response(resp@),
{
    let mut out = String::from_str("{\"success\":");
    if resp.success {
        out.append("true");
    } else {
        out.append("false");
    }
    out.append(",\"prompt\":");
    match &resp.prompt {
        Option::Some(p) => append_json_string(&mut out, p.as_str()),
        Option::None => out.append("null"),
    }
    out.append(",\"generation_time_ms\":");
    match resp.generation_time_ms {
        Option::Some(n) => {
            let t = u64_to_string(n);
            out.append(t.as_str());
        },
        Option::None => out.append("null"),
    }
    out.append(",\"parameters\":");
    match &resp.parameters {
        Option::None => out.append("null"),
        Option::Some(ps) => {
            let ghost psv = crate::types::params_view(ps@);
            out.append("{");
            proof {
                reveal_strlit("{");
                assert(enc_params_items(psv.take(0)) =~= Seq::<char>::empty());
            }
            let ghost base2 = out@;
            let n = ps.len();
            let mut i: usize = 0;
            while i < n
                invariant
                    i <= n,
                    n == ps@.len(),
                    psv == crate::types::params_view(ps@),
                    psv.len() == n,
                    out@ == base2 + enc_params_items(psv.take(i as int)),
                decreases n - i,
            {
                if i > 0 {
                    out.append(",");
                    proof {
                        reveal_strlit(",");
                    }
                }
                append_json_string(&mut out, ps[i].name.as_str());
                out.append(":");
                append_json_string(&mut out, ps[i].value.as_str());
                proof {
                    reveal_strlit(":");
                    assert(psv.take(i as int + 1) =~= psv.take(i as int).push(psv[i as int]));
                    lemma_items_snoc(psv.take(i as int), psv[i as int]);
                    assert(psv[i as int] == ps@[i as int]@);
                    assert(out@ =~= base2 + enc_params_items(psv.take(i as int + 1)));
                }
                i = i + 1;
            }
            proof {
                assert(psv.take(n as int) =~= psv);
            }
            out.append("}");
            proof {
                reveal_strlit("}");
            }
        },
    }
    out.append(",\"timestamp\":");
    match &resp.timestamp {
        Option::Some(t) => append_json_string(&mut out, t.as_str()),
        Option::None => out.append("null"),
    }
    out.append(",\"image_base64\":");
    match &resp.image_base64 {
        Option::Some(b) => append_json_string(&mut out, b.as_str()),
        Option::None => out.append("null"),
    }
    out.append(",\"error\":");
    match &resp.error {
        Option::Some(e) => append_json_string(&mut out, e.as_str()),
        Option::None => out.append("null"),
    }
    out.append("}");
    proof {
        reveal_strlit("{");
        reveal_strlit("}");
        assert(out@ =~= spec_enc_response(resp@));
    }
    out
}

/// The canonical parse of a prediction response, executably.
#[verifier::rlimit(100)]
pub fn decode_response(s: &str) -> (r: Option<PredictionResponse>)
    ensures
        match r {
            Option::Some(resp) => spec_dec_response(s@) == Option::Some(resp@),
            Option::None => spec_dec_response(s@) is None,
        },
{
    let i1 = match expect_lit(s, 0, "{\"success\":") {
        Option::Some(e) => e,
        Option::None => {
            return Option::None;
        },
    };
    let (sc, i2) = match parse_bool(s, i1) {
        Option::Some(ve) => ve,
        Option::None => {
            return Option::None;
        },
    };
    let i3 = match expect_lit(s, i2, ",\"prompt\":") {
        Option::Some(e) => e,
        Option::None => {
            return Option::None;
        },
    };
    let (pr, i4) = match parse_opt_string(s, i3) {
        Option::Some(ve) => ve,
        Option::None => {
            return Option::None;
        },
    };
    let i5 = match expect_lit(s, i4, ",\"generation_time_ms\":") {
        Option::Some(e) => e,
        Option::None => {
            return Option::None;
        },
    };
    let (gt, i6) = match parse_opt_number(s, i5) {
        Option::Some(ve) => ve,
        Option::None => {
            return Option::None;
        },
    };
    let i7 = match expect_lit(s, i6, ",\"parameters\":") {
        Option::Some(e) => e,
        Option::None => {
            return Option::None;
        },
    };
    let (pm, i8) = match parse_params(s, i7) {
        Option::Some(ve) => ve,
        Option::None => {
            return Option::None;
        },
    };
    let i9 = match expect_lit(s, i8, ",\"timestamp\":") {
        Option::Some(e) => e,
        Option::None => {
            return Option::None;
        },
    };
    let (ts, i10) = match parse_opt_string(s, i9) {
        Option::Some(ve) => ve,
        Option::None => {
            return Option::None;
        },
    };
    let i11 = match expect_lit(s, i10, ",\"image_base64\":") {
        Option::Some(e) => e,
        Option::None => {
            return Option::None;
        },
    };
    let (ib, i12) = match parse_opt_string(s, i11) {
        Option::Some(ve) => ve,
        Option::None => {
            return Option::None;
        },
    };
    let i13 = match expect_lit(s, i12, ",\"error\":") {
        Option::Some(e) => e,
        Option::None => {
            return Option::None;
        },
    };
    let (er, i14) = match parse_opt_string(s, i13) {
        Option::Some(ve) => ve,
        Option::None => {
            return Option::None;
        },
    };
    let i15 = match expect_lit(s, i14, "}") {
        Option::Some(e) => e,
        Option::None => {
            return Option::None;
        },
    };
    if i15 != s.unicode_len() {
        return Option::None;
    }
    let resp = PredictionResponse {
        success: sc,
        prompt: pr,
        generation_time_ms: gt,
        parameters: pm,
        timestamp: ts,
        image_base64: ib,
        error: er,
    };
    proof {
        assert(spec_dec_response(s@) == Option::Some(resp@));
    }
    Option::Some(resp)
}

} // verus!
