//! The reveal round trip: parsing the canonical text of a metadata map gives
//! back exactly that map. Together with the sealed-blob round trip this shows
//! that encrypting a metadata map and revealing it with the same password
//! reproduces the map.

use vstd::prelude::*;
use crate::json::{
    is_json_ws, known_field, parse_doc, parse_fields, parse_meta, parse_pairs, parse_string,
    parse_value, scan_string, set_field, skip_ws,
};
use crate::metadata::{empty_meta, MetaView};
use crate::serialize::{
    jfield, json_of_entries, json_of_meta, json_of_pair, json_of_pairs, jvalue, quote_str,
    wf_entries, wf_jstr, wf_meta,
};

verus! {

/// An escape-free string body scans to itself verbatim, ending at the quote.
proof fn lemma_scan_verbatim(doc: Seq<char>, j: int, e: int)
    requires
        0 <= j <= e < doc.len(),
        doc[e] == '"',
        forall|m: int| j <= m < e ==> doc[m] != '"' && doc[m] != '\\',
    ensures
        scan_string(doc, j) == Some((doc.subrange(j, e), e + 1)),
    decreases e - j,
{
    if j == e {
        assert(doc.subrange(j, e) =~= Seq::<char>::empty());
    } else {
        lemma_scan_verbatim(doc, j + 1, e);
        assert(seq![doc[j]] + doc.subrange(j + 1, e) =~= doc.subrange(j, e));
    }
}

/// A quoted escape-free string parses to itself.
proof fn lemma_parse_string_at(doc: Seq<char>, i: int, s: Seq<char>)
    requires
        wf_jstr(s),
        0 <= i,
        i + s.len() + 2 <= doc.len(),
        doc.subrange(i, i + s.len() + 2) == quote_str(s),
    ensures
        parse_string(doc, i) == Some((s, i + s.len() + 2)),
{
    let q = quote_str(s);
    assert(doc[i] == '"') by {
        assert(doc.subrange(i, i + s.len() + 2)[0] == q[0]);
    }
    assert(doc[i + s.len() + 1] == '"') by {
        assert(doc.subrange(i, i + s.len() + 2)[s.len() as int + 1] == q[s.len() as int + 1]);
    }
    assert forall|m: int| i + 1 <= m < i + s.len() + 1 implies doc[m] != '"' && doc[m] != '\\' by {
        assert(doc.subrange(i, i + s.len() + 2)[m - i] == q[m - i]);
        assert(q[m - i] == s[m - i - 1]);
    }
    lemma_scan_verbatim(doc, i + 1, i + s.len() + 1);
    assert forall|k: int| 0 <= k < s.len() implies doc.subrange(i + 1, i + s.len() + 1)[k]
        == s[k] by {
        assert(doc.subrange(i, i + s.len() + 2)[k + 1] == q[k + 1]);
        assert(q[k + 1] == s[k]);
    }
    assert(doc.subrange(i + 1, i + s.len() + 1) =~= s);
}

/// A canonical field value parses to itself.
proof fn lemma_parse_value_at(doc: Seq<char>, i: int, v: Option<Seq<char>>)
    requires
        (v matches Some(x) ==> wf_jstr(x)),
        0 <= i,
        i + jvalue(v).len() <= doc.len(),
        doc.subrange(i, i + jvalue(v).len()) == jvalue(v),
    ensures
        parse_value(doc, i) == Some((v, i + jvalue(v).len())),
{
    match v {
        Some(x) => {
            lemma_parse_string_at(doc, i, x);
        },
        None => {
            reveal_strlit("null");
            let q = jvalue(v);
            assert(q.len() == 4);
            assert(doc[i] == 'n') by {
                assert(doc.subrange(i, i + 4)[0] == q[0]);
            }
            assert(doc[i + 1] == 'u') by {
                assert(doc.subrange(i, i + 4)[1] == q[1]);
            }
            assert(doc[i + 2] == 'l') by {
                assert(doc.subrange(i, i + 4)[2] == q[2]);
            }
            assert(doc[i + 3] == 'l') by {
                assert(doc.subrange(i, i + 4)[3] == q[3]);
            }
            assert(parse_string(doc, i) is None);
        },
    }
}

/// Skipping whitespace at a non-whitespace position stays put.
proof fn lemma_skip_at(doc: Seq<char>, i: int)
    requires
        0 <= i <= doc.len(),
        i < doc.len() ==> !is_json_ws(doc[i]),
    ensures
        skip_ws(doc, i) == i,
{
}

/// A window of `doc` equal to `text` agrees with it on every sub-window.
proof fn lemma_sub_at(doc: Seq<char>, i: int, text: Seq<char>, a: int, b: int)
    requires
        0 <= i,
        i + text.len() <= doc.len(),
        doc.subrange(i, i + text.len()) == text,
        0 <= a <= b <= text.len(),
    ensures
        doc.subrange(i + a, i + b) =~= text.subrange(a, b),
{
    assert forall|k: int| 0 <= k < b - a implies doc.subrange(i + a, i + b)[k] == text.subrange(
        a,
        b,
    )[k] by {
        assert(doc.subrange(i, i + text.len())[a + k] == text[a + k]);
    }
}

/// A window of `doc` equal to `text` agrees with it character by character.
proof fn lemma_char_at(doc: Seq<char>, i: int, text: Seq<char>, p: int)
    requires
        0 <= i,
        i + text.len() <= doc.len(),
        doc.subrange(i, i + text.len()) == text,
        0 <= p < text.len(),
    ensures
        doc[i + p] == text[p],
{
    assert(doc.subrange(i, i + text.len())[p] == text[p]);
}

/// A metadata object's fields as (name, value) pairs, in canonical order.
pub open spec fn meta_fields(m: MetaView) -> Seq<(Seq<char>, Option<Seq<char>>)> {
    seq![
        ("title"@, m.title),
        ("description"@, m.description),
        ("media"@, m.media),
        ("media_hash"@, m.media_hash),
        ("reference"@, m.reference),
        ("reference_hash"@, m.reference_hash),
        ("extra"@, m.extra),
    ]
}

/// The canonical text of a non-empty field list.
pub open spec fn fields_text(fs: Seq<(Seq<char>, Option<Seq<char>>)>) -> Seq<char>
    decreases fs.len(),
{
    if fs.len() == 0 {
        Seq::empty()
    } else if fs.len() == 1 {
        jfield(fs[0].0, fs[0].1)
    } else {
        jfield(fs[0].0, fs[0].1) + seq![','] + fields_text(fs.drop_first())
    }
}

/// Storing a field list into a metadata image, first to last.
pub open spec fn fold_fields(
    acc: MetaView,
    fs: Seq<(Seq<char>, Option<Seq<char>>)>,
) -> MetaView
    decreases fs.len(),
{
    if fs.len() == 0 {
        acc
    } else {
        fold_fields(set_field(acc, fs[0].0, fs[0].1), fs.drop_first())
    }
}

pub open spec fn wf_fields(fs: Seq<(Seq<char>, Option<Seq<char>>)>) -> bool {
    forall|k: int|
        0 <= k < fs.len() ==> wf_jstr((#[trigger] fs[k]).0) && known_field(fs[k].0) && (fs[k].1
            matches Some(x) ==> wf_jstr(x))
}

/// Running the field parser over the canonical text of a field list followed
/// by a closing brace stores exactly those fields and stops past the brace.
#[verifier::rlimit(80)]
proof fn lemma_parse_fields_run(
    doc: Seq<char>,
    i: int,
    acc: MetaView,
    fs: Seq<(Seq<char>, Option<Seq<char>>)>,
    fuel: nat,
)
    requires
        fs.len() >= 1,
        fuel >= fs.len(),
        wf_fields(fs),
        0 <= i,
        i + fields_text(fs).len() < doc.len(),
        doc.subrange(i, i + fields_text(fs).len()) == fields_text(fs),
        doc[i + fields_text(fs).len()] == '}',
    ensures
        parse_fields(doc, i, acc, fuel) == Some(
            (fold_fields(acc, fs), i + fields_text(fs).len() + 1),
        ),
    decreases fs.len(),
{
    let text = fields_text(fs);
    let t = text.len() as int;
    let name = fs[0].0;
    let v = fs[0].1;
    let field = jfield(name, v);
    let fl = field.len() as int;
    let nl = name.len() as int;
    let vl = jvalue(v).len() as int;
    assert(fl == nl + 3 + vl);
    // the window starts with this field's text
    assert(text.subrange(0, fl) =~= field) by {
        if fs.len() > 1 {
            assert forall|k: int| 0 <= k < fl implies text[k] == field[k] by {
                assert(text == field + seq![','] + fields_text(fs.drop_first()));
            }
        }
    }
    lemma_sub_at(doc, i, text, 0, fl);
    assert(doc.subrange(i, i + fl) == field);
    // key
    assert(field.subrange(0, nl + 2) =~= quote_str(name));
    lemma_sub_at(doc, i, field, 0, nl + 2);
    lemma_parse_string_at(doc, i, name);
    assert(known_field(name));
    // colon
    lemma_char_at(doc, i, field, nl + 2);
    assert(field[nl + 2] == ':');
    lemma_skip_at(doc, i + nl + 2);
    // value
    assert(field.subrange(nl + 3, fl) =~= jvalue(v));
    lemma_sub_at(doc, i, field, nl + 3, fl);
    lemma_parse_value_at(doc, i + nl + 3, v);
    let k = i + fl;
    if fs.len() == 1 {
        assert(t == fl);
        assert(doc[k] == '}');
        lemma_skip_at(doc, k);
        assert(fs.drop_first().len() == 0);
        assert(fold_fields(acc, fs) == set_field(acc, name, v));
        assert(parse_fields(doc, i, acc, fuel) == Some((set_field(acc, name, v), k + 1)));
    } else {
        let rest = fs.drop_first();
        let rt = fields_text(rest);
        assert(text == field + seq![','] + rt);
        assert(t == fl + 1 + rt.len());
        lemma_char_at(doc, i, text, fl);
        assert(text[fl] == ',');
        assert(doc[k] == ',');
        lemma_skip_at(doc, k);
        // the next field starts with a quote
        assert(rt[0] == '"') by {
            assert(rt.len() >= 1);
            if rest.len() == 1 {
                assert(rt == jfield(rest[0].0, rest[0].1));
                assert(rt[0] == quote_str(rest[0].0)[0]);
            } else {
                assert(rt == jfield(rest[0].0, rest[0].1) + seq![','] + fields_text(
                    rest.drop_first(),
                ));
                assert(rt[0] == jfield(rest[0].0, rest[0].1)[0]);
                assert(jfield(rest[0].0, rest[0].1)[0] == quote_str(rest[0].0)[0]);
            }
        }
        lemma_char_at(doc, i, text, fl + 1);
        assert(doc[k + 1] == '"');
        lemma_skip_at(doc, k + 1);
        // the remaining window carries the remaining fields
        assert(text.subrange(fl + 1, t) =~= rt);
        lemma_sub_at(doc, i, text, fl + 1, t);
        assert(doc.subrange(k + 1, k + 1 + rt.len() as int) == rt);
        lemma_parse_fields_run(doc, k + 1, set_field(acc, name, v), rest, (fuel - 1) as nat);
        assert(fold_fields(acc, fs) == fold_fields(set_field(acc, name, v), rest));
    }
}


/// The canonical field-list text of a metadata image, unrolled.
proof fn lemma_meta_fields_text(m: MetaView)
    ensures
        fields_text(meta_fields(m)) =~= jfield("title"@, m.title) + seq![','] + jfield(
            "description"@,
            m.description,
        ) + seq![','] + jfield("media"@, m.media) + seq![','] + jfield(
            "media_hash"@,
            m.media_hash,
        ) + seq![','] + jfield("reference"@, m.reference) + seq![','] + jfield(
            "reference_hash"@,
            m.reference_hash,
        ) + seq![','] + jfield("extra"@, m.extra),
{
    let fs = meta_fields(m);
    let f6 = seq![
        ("description"@, m.description),
        ("media"@, m.media),
        ("media_hash"@, m.media_hash),
        ("reference"@, m.reference),
        ("reference_hash"@, m.reference_hash),
        ("extra"@, m.extra),
    ];
    let f5 = f6.drop_first();
    let f4 = f5.drop_first();
    let f3 = f4.drop_first();
    let f2 = f3.drop_first();
    let f1 = f2.drop_first();
    assert(fs.drop_first() =~= f6);
    assert(f1 =~= seq![("extra"@, m.extra)]);
    assert(fields_text(f1) == jfield("extra"@, m.extra));
    assert(fields_text(f2) == jfield("reference_hash"@, m.reference_hash) + seq![',']
        + fields_text(f1));
    assert(fields_text(f3) == jfield("reference"@, m.reference) + seq![','] + fields_text(f2));
    assert(fields_text(f4) == jfield("media_hash"@, m.media_hash) + seq![','] + fields_text(f3));
    assert(fields_text(f5) == jfield("media"@, m.media) + seq![','] + fields_text(f4));
    assert(fields_text(f6) == jfield("description"@, m.description) + seq![','] + fields_text(f5));
    assert(fields_text(fs) == jfield("title"@, m.title) + seq![','] + fields_text(f6));
}

/// The canonical metadata text is the brace-wrapped field-list text.
#[verifier::rlimit(100)]
proof fn lemma_meta_shape(m: MetaView)
    ensures
        json_of_meta(m) =~= seq!['{'] + fields_text(meta_fields(m)) + seq!['}'],
        fields_text(meta_fields(m))[0] == '"',
        json_of_meta(m).len() >= 20,
{
    lemma_meta_fields_text(m);
    reveal_strlit("title");
    let fs = meta_fields(m);
    assert(fields_text(fs)[0] == jfield("title"@, m.title)[0]) by {
        assert(fs.drop_first().len() == 6);
        assert(fields_text(fs) == jfield(fs[0].0, fs[0].1) + seq![','] + fields_text(
            fs.drop_first(),
        ));
    }
    assert(jfield("title"@, m.title)[0] == quote_str("title"@)[0]);
    assert(json_of_meta(m) =~= seq!['{'] + fields_text(fs) + seq!['}']);
}

/// Folding the canonical fields into an empty image rebuilds the image, and
/// the field names are clean.
#[verifier::rlimit(100)]
proof fn lemma_meta_fold(m: MetaView)
    ensures
        fold_fields(empty_meta(), meta_fields(m)) == m,
        wf_meta(m) ==> wf_fields(meta_fields(m)),
{
    reveal_strlit("title");
    reveal_strlit("description");
    reveal_strlit("media");
    reveal_strlit("media_hash");
    reveal_strlit("reference");
    reveal_strlit("reference_hash");
    reveal_strlit("extra");
    let fs = meta_fields(m);
    let f6 = seq![
        ("description"@, m.description),
        ("media"@, m.media),
        ("media_hash"@, m.media_hash),
        ("reference"@, m.reference),
        ("reference_hash"@, m.reference_hash),
        ("extra"@, m.extra),
    ];
    let f5 = f6.drop_first();
    let f4 = f5.drop_first();
    let f3 = f4.drop_first();
    let f2 = f3.drop_first();
    let f1 = f2.drop_first();
    assert(fs.drop_first() =~= f6);
    assert(f1.drop_first() =~= Seq::<(Seq<char>, Option<Seq<char>>)>::empty());
    let a1 = set_field(empty_meta(), "title"@, m.title);
    let a2 = set_field(a1, "description"@, m.description);
    let a3 = set_field(a2, "media"@, m.media);
    let a4 = set_field(a3, "media_hash"@, m.media_hash);
    let a5 = set_field(a4, "reference"@, m.reference);
    let a6 = set_field(a5, "reference_hash"@, m.reference_hash);
    let a7 = set_field(a6, "extra"@, m.extra);
    assert("title"@.len() == 5 && "description"@.len() == 11 && "media"@.len() == 5
        && "media_hash"@.len() == 10 && "reference"@.len() == 9 && "reference_hash"@.len() == 14
        && "extra"@.len() == 5);
    assert("title"@[0] == 't' && "media"@[0] == 'm' && "extra"@[0] == 'e');
    assert("media"@ != "title"@) by {
        assert("media"@[0] != "title"@[0]);
    }
    assert("extra"@ != "title"@) by {
        assert("extra"@[0] != "title"@[0]);
    }
    assert("extra"@ != "media"@) by {
        assert("extra"@[0] != "media"@[0]);
    }
    assert(fold_fields(empty_meta(), fs) == fold_fields(a1, f6));
    assert(fold_fields(a1, f6) == fold_fields(a2, f5));
    assert(fold_fields(a2, f5) == fold_fields(a3, f4));
    assert(fold_fields(a3, f4) == fold_fields(a4, f3));
    assert(fold_fields(a4, f3) == fold_fields(a5, f2));
    assert(fold_fields(a5, f2) == fold_fields(a6, f1));
    assert(fold_fields(a6, f1) == fold_fields(a7, f1.drop_first()));
    assert(fold_fields(a7, f1.drop_first()) == a7);
    assert(a1 == (MetaView { title: m.title, ..empty_meta() }));
    assert(a2 == (MetaView { description: m.description, ..a1 }));
    assert(a3 == (MetaView { media: m.media, ..a2 }));
    assert(a4 == (MetaView { media_hash: m.media_hash, ..a3 }));
    assert(a5 == (MetaView { reference: m.reference, ..a4 }));
    assert(a6 == (MetaView { reference_hash: m.reference_hash, ..a5 }));
    assert(a7 == (MetaView { extra: m.extra, ..a6 }));
    assert(a7 == m);
    if wf_meta(m) {
        assert forall|k: int| 0 <= k < fs.len() implies wf_jstr((#[trigger] fs[k]).0)
            && known_field(fs[k].0) && (fs[k].1 matches Some(x) ==> wf_jstr(x)) by {
            if k == 0 {
                assert(wf_jstr("title"@));
                assert(known_field("title"@));
            } else if k == 1 {
                assert(wf_jstr("description"@));
                assert(known_field("description"@));
            } else if k == 2 {
                assert(wf_jstr("media"@));
                assert(known_field("media"@));
            } else if k == 3 {
                assert(wf_jstr("media_hash"@));
                assert(known_field("media_hash"@));
            } else if k == 4 {
                assert(wf_jstr("reference"@));
                assert(known_field("reference"@));
            } else if k == 5 {
                assert(wf_jstr("reference_hash"@));
                assert(known_field("reference_hash"@));
            } else {
                assert(wf_jstr("extra"@));
                assert(known_field("extra"@));
            }
        }
    }
}

/// The canonical metadata text is brace-wrapped field text, its fields fold
/// back to the image, and its names are clean literals.
proof fn lemma_meta_canonical(m: MetaView)
    ensures
        json_of_meta(m) =~= seq!['{'] + fields_text(meta_fields(m)) + seq!['}'],
        wf_meta(m) ==> wf_fields(meta_fields(m)),
        fold_fields(empty_meta(), meta_fields(m)) == m,
        fields_text(meta_fields(m))[0] == '"',
        json_of_meta(m).len() >= 20,
{
    lemma_meta_shape(m);
    lemma_meta_fold(m);
}

/// The canonical text of one metadata object parses back to its image.
proof fn lemma_parse_meta_at(doc: Seq<char>, i: int, m: MetaView, fuel: nat)
    requires
        wf_meta(m),
        fuel >= 8,
        0 <= i,
        i + json_of_meta(m).len() <= doc.len(),
        doc.subrange(i, i + json_of_meta(m).len()) == json_of_meta(m),
    ensures
        parse_meta(doc, i, fuel) == Some((m, i + json_of_meta(m).len())),
{
    lemma_meta_canonical(m);
    let text = json_of_meta(m);
    let t = text.len() as int;
    let fs = meta_fields(m);
    let ft = fields_text(fs);
    lemma_char_at(doc, i, text, 0);
    assert(text[0] == '{');
    lemma_char_at(doc, i, text, 1);
    assert(text[1] == ft[0]);
    assert(doc[i + 1] == '"');
    lemma_skip_at(doc, i + 1);
    assert(text.subrange(1, 1 + ft.len() as int) =~= ft);
    lemma_sub_at(doc, i, text, 1, 1 + ft.len() as int);
    lemma_char_at(doc, i, text, 1 + ft.len() as int);
    assert(text[1 + ft.len() as int] == '}');
    lemma_parse_fields_run(doc, i + 1, empty_meta(), fs, fuel);
}

/// The back-recursive pair text unfolds from the front as well.
proof fn lemma_json_of_pairs_front(es: Seq<(Seq<char>, MetaView)>)
    requires
        es.len() >= 1,
    ensures
        es.len() == 1 ==> json_of_pairs(es) == json_of_pair(es[0]),
        es.len() >= 2 ==> json_of_pairs(es) =~= json_of_pair(es[0]) + seq![','] + json_of_pairs(
            es.drop_first(),
        ),
    decreases es.len(),
{
    if es.len() >= 2 {
        let dl = es.drop_last();
        let df = es.drop_first();
        lemma_json_of_pairs_front(dl);
        if es.len() == 2 {
            assert(dl =~= seq![es[0]]);
            assert(df =~= seq![es[1]]);
            assert(json_of_pairs(es) == json_of_pairs(dl) + seq![','] + json_of_pair(es.last()));
            assert(json_of_pairs(dl) == json_of_pair(dl[0]));
            assert(json_of_pairs(df) == json_of_pair(df[0]));
            assert(json_of_pairs(es) =~= json_of_pair(es[0]) + seq![','] + json_of_pairs(df));
        } else {
            assert(dl.len() >= 2);
            assert(dl[0] == es[0]);
            assert(dl.drop_first() =~= df.drop_last());
            assert(df.len() >= 2);
            assert(json_of_pairs(df) == json_of_pairs(df.drop_last()) + seq![','] + json_of_pair(
                df.last(),
            ));
            assert(df.last() == es.last());
            assert(json_of_pairs(es) == json_of_pairs(dl) + seq![','] + json_of_pair(es.last()));
            assert(json_of_pairs(es) =~= json_of_pair(es[0]) + seq![','] + json_of_pairs(df));
        }
    }
}

/// A loose lower bound on the canonical text's length, enough to show the
/// parser's fuel (the text length) covers the entries.
proof fn lemma_pairs_len(es: Seq<(Seq<char>, MetaView)>)
    ensures
        json_of_pairs(es).len() >= 10 * es.len(),
    decreases es.len(),
{
    if es.len() >= 1 {
        lemma_pairs_len(es.drop_last());
        lemma_meta_canonical(es.last().1);
        assert(json_of_pair(es.last()).len() >= 20);
        if es.len() == 1 {
            assert(json_of_pairs(es) == json_of_pair(es[0]));
            assert(es[0] == es.last());
        }
    }
}

/// Running the pair parser over the canonical text of entries followed by a
/// closing brace appends exactly those entries and stops past the brace.
#[verifier::rlimit(100)]
proof fn lemma_parse_pairs_run(
    doc: Seq<char>,
    i: int,
    acc: Seq<(Seq<char>, MetaView)>,
    es: Seq<(Seq<char>, MetaView)>,
    fuel: nat,
)
    requires
        es.len() >= 1,
        fuel >= es.len() + 7,
        wf_entries(es),
        0 <= i,
        i + json_of_pairs(es).len() < doc.len(),
        doc.subrange(i, i + json_of_pairs(es).len()) == json_of_pairs(es),
        doc[i + json_of_pairs(es).len()] == '}',
    ensures
        parse_pairs(doc, i, acc, fuel) == Some(
            (acc + es, i + json_of_pairs(es).len() + 1),
        ),
    decreases es.len(),
{
    lemma_json_of_pairs_front(es);
    let text = json_of_pairs(es);
    let t = text.len() as int;
    let key = es[0].0;
    let m = es[0].1;
    let pair = json_of_pair(es[0]);
    let pl = pair.len() as int;
    let kl = key.len() as int;
    let ml = json_of_meta(m).len() as int;
    assert(pl == kl + 3 + ml);
    assert(text.subrange(0, pl) =~= pair) by {
        if es.len() > 1 {
            assert forall|k: int| 0 <= k < pl implies text[k] == pair[k] by {
                assert(text == pair + seq![','] + json_of_pairs(es.drop_first()));
            }
        }
    }
    lemma_sub_at(doc, i, text, 0, pl);
    assert(doc.subrange(i, i + pl) == pair);
    // key
    assert(pair.subrange(0, kl + 2) =~= quote_str(key));
    lemma_sub_at(doc, i, pair, 0, kl + 2);
    lemma_parse_string_at(doc, i, key);
    // colon
    lemma_char_at(doc, i, pair, kl + 2);
    assert(pair[kl + 2] == ':');
    lemma_skip_at(doc, i + kl + 2);
    // metadata object
    assert(pair.subrange(kl + 3, pl) =~= json_of_meta(m));
    lemma_sub_at(doc, i, pair, kl + 3, pl);
    lemma_parse_meta_at(doc, i + kl + 3, m, fuel);
    let k = i + pl;
    if es.len() == 1 {
        assert(t == pl);
        assert(doc[k] == '}');
        lemma_skip_at(doc, k);
        assert(acc.push((key, m)) =~= acc + es);
    } else {
        let rest = es.drop_first();
        let rt = json_of_pairs(rest);
        assert(text =~= pair + seq![','] + rt);
        assert(t == pl + 1 + rt.len() as int);
        lemma_char_at(doc, i, text, pl);
        assert(text[pl] == ',');
        lemma_skip_at(doc, k);
        lemma_json_of_pairs_front(rest);
        assert(rt[0] == '"') by {
            if rest.len() == 1 {
                assert(rt == json_of_pair(rest[0]));
            } else {
                assert(rt =~= json_of_pair(rest[0]) + seq![','] + json_of_pairs(
                    rest.drop_first(),
                ));
            }
            assert(rt[0] == json_of_pair(rest[0])[0]);
            assert(json_of_pair(rest[0])[0] == quote_str(rest[0].0)[0]);
        }
        lemma_char_at(doc, i, text, pl + 1);
        assert(doc[k + 1] == '"');
        lemma_skip_at(doc, k + 1);
        assert(text.subrange(pl + 1, t) =~= rt);
        lemma_sub_at(doc, i, text, pl + 1, t);
        assert(doc.subrange(k + 1, k + 1 + rt.len() as int) == rt);
        lemma_parse_pairs_run(doc, k + 1, acc.push((key, m)), rest, (fuel - 1) as nat);
        assert(acc.push((key, m)) + rest =~= acc + es);
    }
}

/// Parsing the canonical text of a well-formed metadata map yields exactly
/// its entries: on canonical texts the parser inverts the serializer.
pub proof fn lemma_parse_of_canonical(es: Seq<(Seq<char>, MetaView)>)
    requires
        wf_entries(es),
    ensures
        parse_doc(json_of_entries(es)) == Some(es),
{
    let doc = json_of_entries(es);
    let ps = json_of_pairs(es);
    assert(doc == seq!['{'] + ps + seq!['}']);
    assert(doc.len() == ps.len() + 2);
    assert(doc[0] == '{');
    lemma_skip_at(doc, 0);
    if es.len() == 0 {
        assert(ps.len() == 0);
        assert(doc.len() == 2);
        assert(doc[1] == '}');
        lemma_skip_at(doc, 1);
        lemma_skip_at(doc, 2);
        assert(parse_doc(doc) == Some(Seq::<(Seq<char>, MetaView)>::empty()));
        assert(Seq::<(Seq<char>, MetaView)>::empty() =~= es);
    } else {
        lemma_pairs_len(es);
        lemma_json_of_pairs_front(es);
        assert(ps[0] == '"') by {
            if es.len() == 1 {
                assert(ps == json_of_pair(es[0]));
            } else {
                assert(ps =~= json_of_pair(es[0]) + seq![','] + json_of_pairs(es.drop_first()));
            }
            assert(ps[0] == json_of_pair(es[0])[0]);
            assert(json_of_pair(es[0])[0] == quote_str(es[0].0)[0]);
        }
        assert(doc[1] == ps[0]);
        lemma_skip_at(doc, 1);
        assert(doc.subrange(1, 1 + ps.len() as int) =~= ps);
        assert(doc[1 + ps.len() as int] == '}');
        assert(doc.len() >= es.len() + 7) by {
            assert(ps.len() >= 10 * es.len());
        }
        lemma_parse_pairs_run(doc, 1, Seq::empty(), es, doc.len());
        assert(Seq::<(Seq<char>, MetaView)>::empty() + es =~= es);
        lemma_skip_at(doc, doc.len() as int);
    }
}
} // verus!
