//! The aggregated JSON document: a pretty-printed array of objects, each with
//! a "file" field and then a "crc64" field, in processing order, with the
//! conventional JSON string escapes.

use vstd::prelude::*;
use vstd::string::StringExecFns;
use vstd::string::StrSliceExecFns;
use crate::format::hex_digit_lower;
use crate::report::{ResultEntry, entry_views};

verus! {

/// The escape of one character inside a JSON string: quote and backslash get
/// a backslash escape, the named control characters their short escape, the
/// other control characters a \u00XX escape, and everything else stands as
/// itself.
pub open spec fn json_escape_char(c: char) -> Seq<char> {
    if c == '"' {
        seq!['\\', '"']
    } else if c == '\\' {
        seq!['\\', '\\']
    } else if c == '\u{8}' {
        seq!['\\', 'b']
    } else if c == '\t' {
        seq!['\\', 't']
    } else if c == '\n' {
        seq!['\\', 'n']
    } else if c == '\u{c}' {
        seq!['\\', 'f']
    } else if c == '\r' {
        seq!['\\', 'r']
    } else if (c as u32) < 0x20 {
        seq![
            '\\',
            'u',
            '0',
            '0',
            hex_digit_lower(((c as u32) >> 4) as u64),
            hex_digit_lower(((c as u32) & 0xf) as u64),
        ]
    } else {
        seq![c]
    }
}

/// A whole string escaped, character by character, in order.
pub open spec fn json_escape(s: Seq<char>) -> Seq<char>
    decreases s.len(),
{
    if s.len() == 0 {
        Seq::empty()
    } else {
        json_escape(s.drop_last()) + json_escape_char(s.last())
    }
}

/// Relies on String::push: appends exactly the one character.
#[verifier::external_body]
fn push_char(s: &mut String, c: char)
    ensures
        final(s)@ == old(s)@.push(c),
{
    s.push(c);
}

fn append_escaped_char(out: &mut String, c: char)
    ensures
        final(out)@ == old(out)@ + json_escape_char(c),
{
    if c == '"' {
        out.append("\\\"");
        proof {
            reveal_strlit("\\\"");
            assert(out@ =~= old(out)@ + json_escape_char(c));
        }
    } else if c == '\\' {
        out.append("\\\\");
        proof {
            reveal_strlit("\\\\");
            assert(out@ =~= old(out)@ + json_escape_char(c));
        }
    } else if c == '\u{8}' {
        out.append("\\b");
        proof {
            reveal_strlit("\\b");
            assert(out@ =~= old(out)@ + json_escape_char(c));
        }
    } else if c == '\t' {
        out.append("\\t");
        proof {
            reveal_strlit("\\t");
            assert(out@ =~= old(out)@ + json_escape_char(c));
        }
    } else if c == '\n' {
        out.append("\\n");
        proof {
            reveal_strlit("\\n");
            assert(out@ =~= old(out)@ + json_escape_char(c));
        }
    } else if c == '\u{c}' {
        out.append("\\f");
        proof {
            reveal_strlit("\\f");
            assert(out@ =~= old(out)@ + json_escape_char(c));
        }
    } else if c == '\r' {
        out.append("\\r");
        proof {
            reveal_strlit("\\r");
            assert(out@ =~= old(out)@ + json_escape_char(c));
        }
    } else if (c as u32) < 0x20 {
        let code: u32 = c as u32;
        proof {
            assert((code >> 4) < 16 && (code & 0xf) < 16) by (bit_vector)
                requires
                    code < 0x20,
            ;
        }
        out.append("\\u00");
        out.append(crate::format::hex_char_lower((code >> 4) as u64));
        out.append(crate::format::hex_char_lower((code & 0xf) as u64));
        proof {
            reveal_strlit("\\u00");
            assert(out@ =~= old(out)@ + json_escape_char(c));
        }
    } else {
        push_char(out, c);
        proof {
            assert(out@ =~= old(out)@ + json_escape_char(c));
        }
    }
}

fn append_escaped(out: &mut String, s: &String)
    ensures
        final(out)@ == old(out)@ + json_escape(s@),
{
    let len: usize = s.as_str().unicode_len();
    let mut i: usize = 0;
    while i < len
        invariant
            i <= len,
            len == s@.len(),
            out@ == old(out)@ + json_escape(s@.take(i as int)),
        decreases len - i,
    {
        let c = s.as_str().get_char(i);
        append_escaped_char(out, c);
        proof {
            assert(s@.take(i + 1).drop_last() =~= s@.take(i as int));
            assert(s@.take(i + 1).last() == s@[i as int]);
            assert(out@ =~= old(out)@ + json_escape(s@.take(i + 1)));
        }
        i = i + 1;
    }
    proof {
        assert(s@.take(i as int) =~= s@);
    }
}

/// The pretty-printed object for one entry: its two string fields, "file"
/// first and "crc64" second, indented for a depth-one array element.
pub open spec fn json_object_spec(e: (Seq<char>, Seq<char>)) -> Seq<char> {
    "{\n    \"file\": \""@ + json_escape(e.0) + "\",\n    \"crc64\": \""@ + json_escape(e.1)
        + "\"\n  }"@
}

/// The indented, comma-separated object list, in entry order.
pub open spec fn json_items_spec(es: Seq<(Seq<char>, Seq<char>)>) -> Seq<char>
    decreases es.len(),
{
    if es.len() == 0 {
        Seq::empty()
    } else if es.len() == 1 {
        "  "@ + json_object_spec(es[0])
    } else {
        json_items_spec(es.drop_last()) + ",\n  "@ + json_object_spec(es.last())
    }
}

/// The whole document: "[]" for no entries, otherwise the bracketed,
/// pretty-printed object list.
pub open spec fn json_document_spec(es: Seq<(Seq<char>, Seq<char>)>) -> Seq<char> {
    if es.len() == 0 {
        "[]"@
    } else {
        "[\n"@ + json_items_spec(es) + "\n]"@
    }
}

fn append_json_object(out: &mut String, e: &ResultEntry)
    ensures
        final(out)@ == old(out)@ + json_object_spec(e@),
{
    out.append("{\n    \"file\": \"");
    append_escaped(out, &e.file);
    out.append("\",\n    \"crc64\": \"");
    append_escaped(out, &e.crc64);
    out.append("\"\n  }");
    proof {
        assert(out@ =~= old(out)@ + json_object_spec(e@));
    }
}

/// Renders the entries as the aggregated JSON document: a pretty-printed
/// array of one object per entry, fields "file" then "crc64", array order
/// matching entry order.
pub fn render_json(entries: &Vec<ResultEntry>) -> (r: String)
    ensures
        r@ == json_document_spec(entry_views(entries@)),
{
    if entries.len() == 0 {
        let out = String::from_str("[]");
        proof {
            assert(entry_views(entries@).len() == 0);
        }
        return out;
    }
    let mut out = String::from_str("[\n");
    let mut i: usize = 0;
    while i < entries.len()
        invariant
            i <= entries@.len(),
            entries@.len() > 0,
            out@ == "[\n"@ + json_items_spec(entry_views(entries@).take(i as int)),
        decreases entries@.len() - i,
    {
        if i == 0 {
            out.append("  ");
        } else {
            out.append(",\n  ");
        }
        append_json_object(&mut out, &entries[i]);
        proof {
            let views = entry_views(entries@);
            assert(views.take(i + 1).drop_last() =~= views.take(i as int));
            assert(views.take(i + 1).last() == views[i as int]);
            assert(views[i as int] == entries@[i as int]@);
            assert(out@ =~= "[\n"@ + json_items_spec(views.take(i + 1)));
        }
        i = i + 1;
    }
    out.append("\n]");
    proof {
        assert(entry_views(entries@).take(i as int) =~= entry_views(entries@));
        assert(out@ =~= json_document_spec(entry_views(entries@)));
    }
    out
}

} // verus!
