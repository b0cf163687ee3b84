//! The canonical reveal plaintext: one JSON object per blob, keys and string
//! values verbatim (no escapes), every metadata field present (`null` when
//! absent), no whitespace.

use vstd::prelude::*;
use crate::crypto::{aes_gcm_encrypt, decrypt_blob_spec, encrypt_blob_spec};
use crate::metadata::{opt_view, MetaView, TokenMetadata};
use vstd::string::{StrSliceExecFns, StringExecFns};

verus! {

/// A string the canonical text can carry verbatim: no quote, no backslash.
pub open spec fn wf_jstr(s: Seq<char>) -> bool {
    forall|k: int| 0 <= k < s.len() ==> s[k] != '"' && s[k] != '\\'
}

pub open spec fn quote_str(s: Seq<char>) -> Seq<char> {
    seq!['"'] + s + seq!['"']
}

pub open spec fn jvalue(v: Option<Seq<char>>) -> Seq<char> {
    match v {
        Some(x) => quote_str(x),
        None => "null"@,
    }
}

pub open spec fn jfield(name: Seq<char>, v: Option<Seq<char>>) -> Seq<char> {
    quote_str(name) + seq![':'] + jvalue(v)
}

/// The canonical text of one metadata object.
pub open spec fn json_of_meta(m: MetaView) -> Seq<char> {
    seq!['{'] + jfield("title"@, m.title) + seq![','] + jfield("description"@, m.description)
        + seq![','] + jfield("media"@, m.media) + seq![','] + jfield("media_hash"@, m.media_hash)
        + seq![','] + jfield("reference"@, m.reference) + seq![','] + jfield(
        "reference_hash"@,
        m.reference_hash,
    ) + seq![','] + jfield("extra"@, m.extra) + seq!['}']
}

pub open spec fn json_of_pair(p: (Seq<char>, MetaView)) -> Seq<char> {
    quote_str(p.0) + seq![':'] + json_of_meta(p.1)
}

pub open spec fn json_of_pairs(entries: Seq<(Seq<char>, MetaView)>) -> Seq<char>
    decreases entries.len(),
{
    if entries.len() == 0 {
        Seq::empty()
    } else if entries.len() == 1 {
        json_of_pair(entries[0])
    } else {
        json_of_pairs(entries.drop_last()) + seq![','] + json_of_pair(entries.last())
    }
}

/// The canonical text of a whole metadata map.
pub open spec fn json_of_entries(entries: Seq<(Seq<char>, MetaView)>) -> Seq<char> {
    seq!['{'] + json_of_pairs(entries) + seq!['}']
}

pub open spec fn wf_meta(m: MetaView) -> bool {
    &&& (m.title matches Some(x) ==> wf_jstr(x))
    &&& (m.description matches Some(x) ==> wf_jstr(x))
    &&& (m.media matches Some(x) ==> wf_jstr(x))
    &&& (m.media_hash matches Some(x) ==> wf_jstr(x))
    &&& (m.reference matches Some(x) ==> wf_jstr(x))
    &&& (m.reference_hash matches Some(x) ==> wf_jstr(x))
    &&& (m.extra matches Some(x) ==> wf_jstr(x))
}

/// Entries the canonical text can carry: every key non-empty and verbatim,
/// every present field verbatim.
pub open spec fn wf_entries(entries: Seq<(Seq<char>, MetaView)>) -> bool {
    forall|i: int|
        0 <= i < entries.len() ==> wf_jstr((#[trigger] entries[i]).0) && entries[i].0.len() > 0
            && wf_meta(entries[i].1)
}

fn is_clean(s: &str) -> (r: bool)
    ensures
        r == wf_jstr(s@),
{
    let n = s.unicode_len();
    let mut i: usize = 0;
    while i < n
        invariant
            i <= n,
            n == s@.len(),
            forall|k: int| 0 <= k < i ==> s@[k] != '"' && s@[k] != '\\',
        decreases n - i,
    {
        let c = s.get_char(i);
        if c == '"' || c == '\\' {
            return false;
        }
        i = i + 1;
    }
    true
}

fn opt_clean(v: &Option<String>) -> (r: bool)
    ensures
        r == (match v {
            Some(x) => wf_jstr(x@),
            None => true,
        }),
{
    match v {
        Some(x) => is_clean(x.as_str()),
        None => true,
    }
}

fn meta_clean(m: &TokenMetadata) -> (r: bool)
    ensures
        r == wf_meta(m.deep_view()),
{
    opt_clean(&m.title) && opt_clean(&m.description) && opt_clean(&m.media) && opt_clean(
        &m.media_hash,
    ) && opt_clean(&m.reference) && opt_clean(&m.reference_hash) && opt_clean(&m.extra)
}

fn append_quoted(out: &mut String, s: &str)
    ensures
        final(out)@ == old(out)@ + quote_str(s@),
{
    out.append("\"");
    out.append(s);
    out.append("\"");
    proof {
        reveal_strlit("\"");
        assert(final(out)@ =~= old(out)@ + quote_str(s@));
    }
}

fn append_value(out: &mut String, v: &Option<String>)
    ensures
        final(out)@ == old(out)@ + jvalue(
            match v {
                Some(x) => Some(x@),
                None => None::<Seq<char>>,
            },
        ),
{
    match v {
        Some(x) => append_quoted(out, x.as_str()),
        None => out.append("null"),
    }
}

fn append_field(out: &mut String, name: &str, v: &Option<String>)
    ensures
        final(out)@ == old(out)@ + jfield(
            name@,
            match v {
                Some(x) => Some(x@),
                None => None::<Seq<char>>,
            },
        ),
{
    append_quoted(out, name);
    out.append(":");
    append_value(out, v);
    proof {
        reveal_strlit(":");
        assert(final(out)@ =~= old(out)@ + jfield(
            name@,
            match v {
                Some(x) => Some(x@),
                None => None::<Seq<char>>,
            },
        ));
    }
}

#[verifier::rlimit(100)]
fn append_meta(out: &mut String, m: &TokenMetadata)
    ensures
        final(out)@ == old(out)@ + json_of_meta(m.deep_view()),
{
    out.append("{");
    append_field(out, "title", &m.title);
    out.append(",");
    append_field(out, "description", &m.description);
    out.append(",");
    append_field(out, "media", &m.media);
    out.append(",");
    append_field(out, "media_hash", &m.media_hash);
    out.append(",");
    append_field(out, "reference", &m.reference);
    out.append(",");
    append_field(out, "reference_hash", &m.reference_hash);
    out.append(",");
    append_field(out, "extra", &m.extra);
    out.append("}");
    proof {
        reveal_strlit("{");
        reveal_strlit(",");
        reveal_strlit("}");
        assert(final(out)@ =~= old(out)@ + json_of_meta(m.deep_view()));
    }
}

/// Renders the canonical text of a metadata map, unless a key or value needs
/// an escape (or a key is empty), which the canonical text cannot carry.
pub fn serialize_entries(entries: &Vec<(String, TokenMetadata)>) -> (r: Option<String>)
    ensures
        match r {
            Some(s) => wf_entries(entries.deep_view()) && s@ == json_of_entries(
                entries.deep_view(),
            ),
            None => !wf_entries(entries.deep_view()),
        },
{
    let ghost ev = entries.deep_view();
    let n = entries.len();
    let mut i: usize = 0;
    while i < n
        invariant
            i <= n,
            n == entries@.len(),
            ev == entries.deep_view(),
            forall|k: int|
                0 <= k < i ==> wf_jstr((#[trigger] ev[k]).0) && ev[k].0.len() > 0 && wf_meta(
                    ev[k].1,
                ),
        decreases n - i,
    {
        proof {
            assert(ev[i as int] == (entries@[i as int].0@, entries@[i as int].1.deep_view()));
        }
        if entries[i].0.as_str().unicode_len() == 0 {
            proof {
                assert(!(ev[i as int].0.len() > 0));
            }
            return None;
        }
        if !is_clean(entries[i].0.as_str()) {
            proof {
                assert(!wf_jstr(ev[i as int].0));
            }
            return None;
        }
        if !meta_clean(&entries[i].1) {
            proof {
                assert(!wf_meta(ev[i as int].1));
            }
            return None;
        }
        i = i + 1;
    }
    let mut out = "{".to_owned();
    proof {
        reveal_strlit("{");
        assert(out@ =~= seq!['{'] + json_of_pairs(ev.take(0)));
    }
    let mut j: usize = 0;
    while j < n
        invariant
            j <= n,
            n == entries@.len(),
            ev == entries.deep_view(),
            out@ == seq!['{'] + json_of_pairs(ev.take(j as int)),
        decreases n - j,
    {
        if j > 0 {
            out.append(",");
        }
        append_quoted(&mut out, entries[j].0.as_str());
        out.append(":");
        append_meta(&mut out, &entries[j].1);
        proof {
            reveal_strlit(",");
            reveal_strlit(":");
            assert(ev.take(j + 1).drop_last() =~= ev.take(j as int));
            assert(ev.take(j + 1).last() == ev[j as int]);
            assert(ev[j as int] == (entries@[j as int].0@, entries@[j as int].1.deep_view()));
            if j == 0 {
                assert(out@ =~= seq!['{'] + json_of_pairs(ev.take(1)));
            } else {
                assert(out@ =~= seq!['{'] + json_of_pairs(ev.take(j + 1)));
            }
        }
        j = j + 1;
    }
    out.append("}");
    proof {
        reveal_strlit("}");
        assert(ev.take(n as int) =~= ev);
        assert(out@ =~= json_of_entries(ev));
    }
    Some(out)
}

/// Encrypts a metadata map into one queue blob: the canonical text, sealed
/// under the password-derived key. Decrypting the blob with the same password
/// yields the canonical text back, and revealing it reproduces exactly the
/// given entries (the reveal round trip). `None` when the map cannot be
/// carried verbatim or its text would exceed the sealable size.
pub fn encrypt_metadata(
    password: &str,
    salt: &[u8],
    nonce: &[u8],
    entries: &Vec<(String, TokenMetadata)>,
) -> (r: Option<String>)
    requires
        salt@.len() == 16,
        nonce@.len() == 12,
    ensures
        match r {
            Some(blob) => {
                &&& wf_entries(entries.deep_view())
                &&& blob@ == encrypt_blob_spec(
                    password@,
                    salt@,
                    nonce@,
                    json_of_entries(entries.deep_view()),
                )
                &&& decrypt_blob_spec(password@, blob@) == Some(
                    json_of_entries(entries.deep_view()),
                )
                &&& crate::reveal_engine::reveal_outcome(password@, blob@) == Some(
                    entries.deep_view(),
                )
            },
            None => !wf_entries(entries.deep_view()) || json_of_entries(
                entries.deep_view(),
            ).len() >= 0x40000000,
        },
{
    let text = match serialize_entries(entries) {
        Some(t) => t,
        None => {
            return None;
        },
    };
    if text.as_str().unicode_len() >= 0x40000000 {
        return None;
    }
    proof {
        crate::roundtrip::lemma_parse_of_canonical(entries.deep_view());
    }
    Some(aes_gcm_encrypt(password, salt, nonce, text.as_str()))
}

} // verus!
