//! The reveal plaintext format: a JSON object mapping token identifiers to
//! metadata objects whose field values are strings or null. The grammar is
//! defined by total specification functions; the executable parser returns
//! exactly what they denote. Strings resolve the single-character escapes
//! (`\u` is not accepted); an ignored field may also hold a number or
//! boolean, but not a nested object or array.

use vstd::prelude::*;
use crate::metadata::{empty_meta, MetaView, TokenMetadata};
use vstd::string::{StrSliceExecFns, StringExecFns};

verus! {

pub open spec fn is_json_ws(c: char) -> bool {
    c == ' ' || c == '\n' || c == '\t' || c == '\r'
}

pub open spec fn skip_ws(s: Seq<char>, i: int) -> int
    decreases s.len() - i
        when 0 <= i <= s.len()
{
    if i < s.len() && is_json_ws(s[i]) {
        skip_ws(s, i + 1)
    } else {
        i
    }
}

/// What a single-character escape denotes; a `\u` escape is not accepted.
pub open spec fn unescaped(c: char) -> Option<char> {
    if c == '"' {
        Some('"')
    } else if c == '\\' {
        Some('\\')
    } else if c == '/' {
        Some('/')
    } else if c == 'b' {
        Some('\u{8}')
    } else if c == 'f' {
        Some('\u{c}')
    } else if c == 'n' {
        Some('\n')
    } else if c == 'r' {
        Some('\r')
    } else if c == 't' {
        Some('\t')
    } else {
        None
    }
}

/// The characters a string body from `i` denotes, up to its closing quote,
/// resolving single-character escapes.
pub open spec fn scan_string(s: Seq<char>, i: int) -> Option<(Seq<char>, int)>
    decreases s.len() - i
        when 0 <= i <= s.len()
{
    if i >= s.len() {
        None
    } else if s[i] == '"' {
        Some((Seq::empty(), i + 1))
    } else if s[i] == '\\' {
        if i + 1 < s.len() {
            match unescaped(s[i + 1]) {
                Some(c) => match scan_string(s, i + 2) {
                    Some(p) => Some((seq![c] + p.0, p.1)),
                    None => None,
                },
                None => None,
            }
        } else {
            None
        }
    } else {
        match scan_string(s, i + 1) {
            Some(p) => Some((seq![s[i]] + p.0, p.1)),
            None => None,
        }
    }
}

/// A quoted string at `i`: its denoted characters and the position after the
/// closing quote.
pub open spec fn parse_string(s: Seq<char>, i: int) -> Option<(Seq<char>, int)> {
    if 0 <= i < s.len() && s[i] == '"' {
        scan_string(s, i + 1)
    } else {
        None
    }
}

/// A field value at `i`: a quoted string, or the literal `null`.
pub open spec fn parse_value(s: Seq<char>, i: int) -> Option<(Option<Seq<char>>, int)> {
    match parse_string(s, i) {
        Some((v, j)) => Some((Some(v), j)),
        None => if 0 <= i && i + 4 <= s.len() && s[i] == 'n' && s[i + 1] == 'u' && s[i + 2] == 'l'
            && s[i + 3] == 'l' {
            Some((None, i + 4))
        } else {
            None
        },
    }
}

/// Stores a parsed field into a metadata image; unknown fields are ignored.
pub open spec fn set_field(m: MetaView, key: Seq<char>, v: Option<Seq<char>>) -> MetaView {
    if key == "title"@ {
        MetaView { title: v, ..m }
    } else if key == "description"@ {
        MetaView { description: v, ..m }
    } else if key == "media"@ {
        MetaView { media: v, ..m }
    } else if key == "media_hash"@ {
        MetaView { media_hash: v, ..m }
    } else if key == "reference"@ {
        MetaView { reference: v, ..m }
    } else if key == "reference_hash"@ {
        MetaView { reference_hash: v, ..m }
    } else if key == "extra"@ {
        MetaView { extra: v, ..m }
    } else {
        m
    }
}

/// The field names a metadata object stores; any other field is ignored.
pub open spec fn known_field(key: Seq<char>) -> bool {
    ||| key == "title"@
    ||| key == "description"@
    ||| key == "media"@
    ||| key == "media_hash"@
    ||| key == "reference"@
    ||| key == "reference_hash"@
    ||| key == "extra"@
}

/// A character a number token may contain.
pub open spec fn num_char(c: char) -> bool {
    ('0' <= c && c <= '9') || c == '-' || c == '+' || c == '.' || c == 'e' || c == 'E'
}

/// The end of a maximal run of number characters.
pub open spec fn num_end(s: Seq<char>, i: int) -> int
    decreases s.len() - i
        when 0 <= i <= s.len()
{
    if i < s.len() && num_char(s[i]) {
        num_end(s, i + 1)
    } else {
        i
    }
}

/// An ignored field's value: a string, `null`, `true`, `false`, or a number
/// run; only the position after it matters.
pub open spec fn parse_skip_value(s: Seq<char>, i: int) -> Option<int> {
    match parse_string(s, i) {
        Some((v, j)) => Some(j),
        None => if 0 <= i && i + 4 <= s.len() && s[i] == 'n' && s[i + 1] == 'u' && s[i + 2] == 'l'
            && s[i + 3] == 'l' {
            Some(i + 4)
        } else if 0 <= i && i + 4 <= s.len() && s[i] == 't' && s[i + 1] == 'r' && s[i + 2] == 'u'
            && s[i + 3] == 'e' {
            Some(i + 4)
        } else if 0 <= i && i + 5 <= s.len() && s[i] == 'f' && s[i + 1] == 'a' && s[i + 2] == 'l'
            && s[i + 3] == 's' && s[i + 4] == 'e' {
            Some(i + 5)
        } else if 0 <= i < s.len() && num_char(s[i]) {
            Some(num_end(s, i))
        } else {
            None
        },
    }
}

/// The fields of a metadata object from the first field's opening quote up to
/// and past the closing brace.
pub open spec fn parse_fields(s: Seq<char>, i: int, acc: MetaView, fuel: nat) -> Option<
    (MetaView, int),
>
    decreases fuel,
{
    if fuel == 0 {
        None
    } else {
        match parse_string(s, i) {
            None => None,
            Some((key, j)) => {
                let j2 = skip_ws(s, j);
                if j2 < s.len() && s[j2] == ':' {
                    let j3 = skip_ws(s, j2 + 1);
                    let step: Option<(MetaView, int)> = if known_field(key) {
                        match parse_value(s, j3) {
                            None => None,
                            Some((v, k)) => Some((set_field(acc, key, v), k)),
                        }
                    } else {
                        match parse_skip_value(s, j3) {
                            None => None,
                            Some(k) => Some((acc, k)),
                        }
                    };
                    match step {
                        None => None,
                        Some((acc2, k)) => {
                            let k2 = skip_ws(s, k);
                            if k2 < s.len() && s[k2] == ',' {
                                parse_fields(s, skip_ws(s, k2 + 1), acc2, (fuel - 1) as nat)
                            } else if k2 < s.len() && s[k2] == '}' {
                                Some((acc2, k2 + 1))
                            } else {
                                None
                            }
                        },
                    }
                } else {
                    None
                }
            },
        }
    }
}

/// A metadata object at `i`: a brace-delimited list of fields.
pub open spec fn parse_meta(s: Seq<char>, i: int, fuel: nat) -> Option<(MetaView, int)> {
    if 0 <= i < s.len() && s[i] == '{' {
        let j = skip_ws(s, i + 1);
        if j < s.len() && s[j] == '}' {
            Some((empty_meta(), j + 1))
        } else {
            parse_fields(s, j, empty_meta(), fuel)
        }
    } else {
        None
    }
}

/// The entries of the top-level object from the first key's opening quote up
/// to and past the closing brace, in textual order.
pub open spec fn parse_pairs(
    s: Seq<char>,
    i: int,
    acc: Seq<(Seq<char>, MetaView)>,
    fuel: nat,
) -> Option<(Seq<(Seq<char>, MetaView)>, int)>
    decreases fuel,
{
    if fuel == 0 {
        None
    } else {
        match parse_string(s, i) {
            None => None,
            Some((key, j)) => {
                let j2 = skip_ws(s, j);
                if j2 < s.len() && s[j2] == ':' {
                    let j3 = skip_ws(s, j2 + 1);
                    match parse_meta(s, j3, fuel) {
                        None => None,
                        Some((m, k)) => {
                            let acc2 = acc.push((key, m));
                            let k2 = skip_ws(s, k);
                            if k2 < s.len() && s[k2] == ',' {
                                parse_pairs(s, skip_ws(s, k2 + 1), acc2, (fuel - 1) as nat)
                            } else if k2 < s.len() && s[k2] == '}' {
                                Some((acc2, k2 + 1))
                            } else {
                                None
                            }
                        },
                    }
                } else {
                    None
                }
            },
        }
    }
}

/// A whole document: one object covering the entire text, its entries in
/// textual order.
pub open spec fn parse_doc(s: Seq<char>) -> Option<Seq<(Seq<char>, MetaView)>> {
    let i = skip_ws(s, 0);
    if i < s.len() && s[i] == '{' {
        let j = skip_ws(s, i + 1);
        let r = if j < s.len() && s[j] == '}' {
            Some((Seq::<(Seq<char>, MetaView)>::empty(), j + 1))
        } else {
            parse_pairs(s, j, Seq::empty(), s.len())
        };
        match r {
            None => None,
            Some((entries, k)) => if 0 <= k <= s.len() && skip_ws(s, k) == s.len() {
                Some(entries)
            } else {
                None
            },
        }
    } else {
        None
    }
}

fn skip_ws_exec(s: &str, i: usize) -> (r: usize)
    requires
        i <= s@.len(),
    ensures
        r == skip_ws(s@, i as int),
        i <= r <= s@.len(),
    decreases s@.len() - i,
{
    if i < s.unicode_len() {
        let c = s.get_char(i);
        if c == ' ' || c == '\n' || c == '\t' || c == '\r' {
            return skip_ws_exec(s, i + 1);
        }
    }
    i
}

fn scan_string_exec(s: &str, i: usize) -> (r: Option<(String, usize)>)
    requires
        i <= s@.len(),
    ensures
        match r {
            Some(p) => scan_string(s@, i as int) == Some((p.0@, p.1 as int)) && i < p.1
                <= s@.len(),
            None => scan_string(s@, i as int) is None,
        },
    decreases s@.len() - i,
{
    if i >= s.unicode_len() {
        return None;
    }
    let c = s.get_char(i);
    if c == '"' {
        let out = String::new();
        proof {
            assert(out@ =~= Seq::<char>::empty());
        }
        return Some((out, i + 1));
    }
    if c == '\\' {
        if i + 1 >= s.unicode_len() {
            return None;
        }
        let e = s.get_char(i + 1);
        let rep: &str = if e == '"' {
            "\""
        } else if e == '\\' {
            "\\"
        } else if e == '/' {
            "/"
        } else if e == 'b' {
            "\u{8}"
        } else if e == 'f' {
            "\u{c}"
        } else if e == 'n' {
            "\n"
        } else if e == 'r' {
            "\r"
        } else if e == 't' {
            "\t"
        } else {
            return None;
        };
        proof {
            reveal_strlit("\"");
            reveal_strlit("\\");
            reveal_strlit("/");
            reveal_strlit("\u{8}");
            reveal_strlit("\u{c}");
            reveal_strlit("\n");
            reveal_strlit("\r");
            reveal_strlit("\t");
            assert(rep@ =~= seq![unescaped(e).unwrap()]);
        }
        match scan_string_exec(s, i + 2) {
            None => {
                return None;
            },
            Some((rest, j)) => {
                let mut out = rep.to_owned();
                out.append(rest.as_str());
                proof {
                    assert(out@ =~= seq![unescaped(e).unwrap()] + rest@);
                }
                return Some((out, j));
            },
        }
    }
    match scan_string_exec(s, i + 1) {
        None => None,
        Some((rest, j)) => {
            let seg = s.substring_char(i, i + 1);
            proof {
                assert(seg@ =~= seq![s@[i as int]]);
            }
            let mut out = seg.to_owned();
            out.append(rest.as_str());
            proof {
                assert(out@ =~= seq![s@[i as int]] + rest@);
            }
            Some((out, j))
        },
    }
}

fn parse_string_exec(s: &str, i: usize) -> (r: Option<(String, usize)>)
    requires
        i <= s@.len(),
    ensures
        match r {
            Some(p) => parse_string(s@, i as int) == Some((p.0@, p.1 as int)) && p.1 <= s@.len(),
            None => parse_string(s@, i as int) is None,
        },
{
    if i >= s.unicode_len() {
        return None;
    }
    if s.get_char(i) != '"' {
        return None;
    }
    scan_string_exec(s, i + 1)
}

fn num_end_exec(s: &str, i: usize) -> (r: usize)
    requires
        i <= s@.len(),
    ensures
        r == num_end(s@, i as int),
        i <= r <= s@.len(),
    decreases s@.len() - i,
{
    if i < s.unicode_len() {
        let c = s.get_char(i);
        if ('0' <= c && c <= '9') || c == '-' || c == '+' || c == '.' || c == 'e' || c == 'E' {
            return num_end_exec(s, i + 1);
        }
    }
    i
}

fn parse_skip_value_exec(s: &str, i: usize) -> (r: Option<usize>)
    requires
        i <= s@.len(),
    ensures
        match r {
            Some(k) => parse_skip_value(s@, i as int) == Some(k as int) && k <= s@.len(),
            None => parse_skip_value(s@, i as int) is None,
        },
{
    match parse_string_exec(s, i) {
        Some((_, j)) => {
            return Some(j);
        },
        None => {},
    }
    let n = s.unicode_len();
    if n >= 4 && i <= n - 4 && s.get_char(i) == 'n' && s.get_char(i + 1) == 'u' && s.get_char(
        i + 2,
    ) == 'l' && s.get_char(i + 3) == 'l' {
        return Some(i + 4);
    }
    if n >= 4 && i <= n - 4 && s.get_char(i) == 't' && s.get_char(i + 1) == 'r' && s.get_char(
        i + 2,
    ) == 'u' && s.get_char(i + 3) == 'e' {
        return Some(i + 4);
    }
    if n >= 5 && i <= n - 5 && s.get_char(i) == 'f' && s.get_char(i + 1) == 'a' && s.get_char(
        i + 2,
    ) == 'l' && s.get_char(i + 3) == 's' && s.get_char(i + 4) == 'e' {
        return Some(i + 5);
    }
    if i < n {
        let c = s.get_char(i);
        if ('0' <= c && c <= '9') || c == '-' || c == '+' || c == '.' || c == 'e' || c == 'E' {
            return Some(num_end_exec(s, i));
        }
    }
    None
}

fn is_known_field(key: &String) -> (r: bool)
    ensures
        r == known_field(key@),
{
    key.eq(&"title".to_owned()) || key.eq(&"description".to_owned()) || key.eq(
        &"media".to_owned(),
    ) || key.eq(&"media_hash".to_owned()) || key.eq(&"reference".to_owned()) || key.eq(
        &"reference_hash".to_owned(),
    ) || key.eq(&"extra".to_owned())
}

fn parse_value_exec(s: &str, i: usize) -> (r: Option<(Option<String>, usize)>)
    requires
        i <= s@.len(),
    ensures
        match r {
            Some(p) => parse_value(s@, i as int) == Some(
                (
                    match p.0 {
                        Some(v) => Some(v@),
                        None => None::<Seq<char>>,
                    },
                    p.1 as int,
                ),
            ) && p.1 <= s@.len(),
            None => parse_value(s@, i as int) is None,
        },
{
    match parse_string_exec(s, i) {
        Some((v, j)) => Some((Some(v), j)),
        None => {
            let n = s.unicode_len();
            if n >= 4 && i <= n - 4 && s.get_char(i) == 'n' && s.get_char(i + 1) == 'u'
                && s.get_char(i + 2) == 'l' && s.get_char(i + 3) == 'l' {
                Some((None, i + 4))
            } else {
                None
            }
        },
    }
}

fn set_field_exec(m: TokenMetadata, key: &String, v: Option<String>) -> (r: TokenMetadata)
    ensures
        r.deep_view() == set_field(
            m.deep_view(),
            key@,
            match v {
                Some(x) => Some(x@),
                None => None::<Seq<char>>,
            },
        ),
{
    let mut m = m;
    if key.eq(&"title".to_owned()) {
        m.title = v;
    } else if key.eq(&"description".to_owned()) {
        m.description = v;
    } else if key.eq(&"media".to_owned()) {
        m.media = v;
    } else if key.eq(&"media_hash".to_owned()) {
        m.media_hash = v;
    } else if key.eq(&"reference".to_owned()) {
        m.reference = v;
    } else if key.eq(&"reference_hash".to_owned()) {
        m.reference_hash = v;
    } else if key.eq(&"extra".to_owned()) {
        m.extra = v;
    }
    m
}

fn parse_fields_exec(s: &str, i: usize, acc: TokenMetadata, fuel: usize) -> (r: Option<
    (TokenMetadata, usize),
>)
    requires
        i <= s@.len(),
    ensures
        match r {
            Some(p) => parse_fields(s@, i as int, acc.deep_view(), fuel as nat) == Some(
                (p.0.deep_view(), p.1 as int),
            ) && p.1 <= s@.len(),
            None => parse_fields(s@, i as int, acc.deep_view(), fuel as nat) is None,
        },
    decreases fuel,
{
    if fuel == 0 {
        return None;
    }
    let (key, j) = match parse_string_exec(s, i) {
        None => {
            return None;
        },
        Some(p) => p,
    };
    let j2 = skip_ws_exec(s, j);
    if !(j2 < s.unicode_len() && s.get_char(j2) == ':') {
        return None;
    }
    let j3 = skip_ws_exec(s, j2 + 1);
    let (acc2, k) = if is_known_field(&key) {
        match parse_value_exec(s, j3) {
            None => {
                return None;
            },
            Some((v, k)) => (set_field_exec(acc, &key, v), k),
        }
    } else {
        match parse_skip_value_exec(s, j3) {
            None => {
                return None;
            },
            Some(k) => (acc, k),
        }
    };
    let k2 = skip_ws_exec(s, k);
    if k2 < s.unicode_len() && s.get_char(k2) == ',' {
        let k3 = skip_ws_exec(s, k2 + 1);
        parse_fields_exec(s, k3, acc2, fuel - 1)
    } else if k2 < s.unicode_len() && s.get_char(k2) == '}' {
        Some((acc2, k2 + 1))
    } else {
        None
    }
}

fn parse_meta_exec(s: &str, i: usize, fuel: usize) -> (r: Option<(TokenMetadata, usize)>)
    requires
        i <= s@.len(),
    ensures
        match r {
            Some(p) => parse_meta(s@, i as int, fuel as nat) == Some(
                (p.0.deep_view(), p.1 as int),
            ) && p.1 <= s@.len(),
            None => parse_meta(s@, i as int, fuel as nat) is None,
        },
{
    if !(i < s.unicode_len() && s.get_char(i) == '{') {
        return None;
    }
    let j = skip_ws_exec(s, i + 1);
    if j < s.unicode_len() && s.get_char(j) == '}' {
        Some((TokenMetadata::empty(), j + 1))
    } else {
        parse_fields_exec(s, j, TokenMetadata::empty(), fuel)
    }
}

fn parse_pairs_exec(s: &str, i: usize, acc: Vec<(String, TokenMetadata)>, fuel: usize) -> (r:
    Option<(Vec<(String, TokenMetadata)>, usize)>)
    requires
        i <= s@.len(),
    ensures
        match r {
            Some(p) => parse_pairs(s@, i as int, acc.deep_view(), fuel as nat) == Some(
                (p.0.deep_view(), p.1 as int),
            ) && p.1 <= s@.len(),
            None => parse_pairs(s@, i as int, acc.deep_view(), fuel as nat) is None,
        },
    decreases fuel,
{
    if fuel == 0 {
        return None;
    }
    let (key, j) = match parse_string_exec(s, i) {
        None => {
            return None;
        },
        Some(p) => p,
    };
    let j2 = skip_ws_exec(s, j);
    if !(j2 < s.unicode_len() && s.get_char(j2) == ':') {
        return None;
    }
    let j3 = skip_ws_exec(s, j2 + 1);
    let (m, k) = match parse_meta_exec(s, j3, fuel) {
        None => {
            return None;
        },
        Some(p) => p,
    };
    let ghost accv = acc.deep_view();
    let ghost keyv = key@;
    let ghost mv = m.deep_view();
    let mut acc2 = acc;
    acc2.push((key, m));
    proof {
        assert(acc2.deep_view() =~= accv.push((keyv, mv)));
    }
    let k2 = skip_ws_exec(s, k);
    if k2 < s.unicode_len() && s.get_char(k2) == ',' {
        let k3 = skip_ws_exec(s, k2 + 1);
        parse_pairs_exec(s, k3, acc2, fuel - 1)
    } else if k2 < s.unicode_len() && s.get_char(k2) == '}' {
        Some((acc2, k2 + 1))
    } else {
        None
    }
}

/// Parses a whole reveal plaintext into its entries, exactly as `parse_doc`
/// denotes.
pub fn parse_doc_exec(s: &str) -> (r: Option<Vec<(String, TokenMetadata)>>)
    ensures
        match r {
            Some(entries) => parse_doc(s@) == Some(entries.deep_view()),
            None => parse_doc(s@) is None,
        },
{
    let i = skip_ws_exec(s, 0);
    if !(i < s.unicode_len() && s.get_char(i) == '{') {
        return None;
    }
    let j = skip_ws_exec(s, i + 1);
    let inner: Option<(Vec<(String, TokenMetadata)>, usize)> = if j < s.unicode_len()
        && s.get_char(j) == '}' {
        Some((Vec::new(), j + 1))
    } else {
        let acc: Vec<(String, TokenMetadata)> = Vec::new();
        proof {
            assert(acc.deep_view() =~= Seq::<(Seq<char>, MetaView)>::empty());
        }
        parse_pairs_exec(s, j, acc, s.unicode_len())
    };
    match inner {
        None => None,
        Some((entries, k)) => {
            if skip_ws_exec(s, k) == s.unicode_len() {
                Some(entries)
            } else {
                None
            }
        },
    }
}

} // verus!
