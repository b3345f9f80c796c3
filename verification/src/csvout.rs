//! The writer's compute half: encodes the ordered successes as CSV
//! text, a header row naming the destination fields and one row per
//! record, with standard CSV quoting.
use vstd::prelude::*;
use vstd::string::StringExecFns;
use crate::bookmark::RaindropBookmark;
use crate::text::push_char;

verus! {

/// A character that forces its field to be quoted: the quote itself,
/// the field delimiter, or a line break.
pub open spec fn csv_special(c: char) -> bool {
    c == '"' || c == ',' || c == '\n' || c == '\r'
}

/// Whether a field must be written in quotes.
pub open spec fn needs_quoting(f: Seq<char>) -> bool {
    exists|i: int| 0 <= i < f.len() && csv_special(#[trigger] f[i])
}

/// The field's characters with every quote doubled.
pub open spec fn doubled_quotes(f: Seq<char>) -> Seq<char>
    decreases f.len(),
{
    if f.len() == 0 {
        Seq::empty()
    } else {
        doubled_quotes(f.drop_last()) + (if f.last() == '"' {
            seq!['"', '"']
        } else {
            seq![f.last()]
        })
    }
}

/// One encoded field: quoted with inner quotes doubled when it holds
/// a special character, verbatim otherwise.
pub open spec fn encoded_field(f: Seq<char>) -> Seq<char> {
    if needs_quoting(f) {
        seq!['"'] + doubled_quotes(f) + seq!['"']
    } else {
        f
    }
}

/// One encoded data row: the six fields in the destination order,
/// comma-separated and terminated by a line feed.
pub open spec fn encoded_row(bm: RaindropBookmark) -> Seq<char> {
    encoded_field(bm.url@) + seq![','] + encoded_field(bm.folder@) + seq![','] + encoded_field(
        bm.title@,
    ) + seq![','] + encoded_field(bm.description@) + seq![','] + encoded_field(bm.tags@) + seq![
        ','
    ] + encoded_field(bm.created@) + seq!['\n']
}

/// The header row naming the destination fields, in order.
pub open spec fn csv_header() -> Seq<char> {
    "url,folder,title,description,tags,created\n"@
}

/// The whole output text: the header row, then one row per record in
/// the given order.
pub open spec fn csv_text(bms: Seq<RaindropBookmark>) -> Seq<char>
    decreases bms.len(),
{
    if bms.len() == 0 {
        csv_header()
    } else {
        csv_text(bms.drop_last()) + encoded_row(bms.last())
    }
}

fn field_needs_quoting(v: &Vec<char>) -> (r: bool)
    ensures
        r == needs_quoting(v@),
{
    let mut i: usize = 0;
    while i < v.len()
        invariant
            i <= v@.len(),
            forall|k: int| 0 <= k < i ==> !csv_special(#[trigger] v@[k]),
        decreases v@.len() - i,
    {
        let c = v[i];
        if c == '"' || c == ',' || c == '\n' || c == '\r' {
            return true;
        }
        i = i + 1;
    }
    false
}

fn append_encoded_field(out: &mut String, f: &str)
    ensures
        final(out)@ == old(out)@ + encoded_field(f@),
{
    let v = crate::text::chars_of(f);
    if !field_needs_quoting(&v) {
        out.append(f);
    } else {
        let ghost base = out@;
        push_char(out, '"');
        let mut k: usize = 0;
        while k < v.len()
            invariant
                k <= v@.len(),
                out@ == base.push('"') + doubled_quotes(v@.take(k as int)),
            decreases v@.len() - k,
        {
            let c = v[k];
            proof {
                assert(v@.take(k as int + 1).drop_last() =~= v@.take(k as int));
                assert(v@.take(k as int + 1).last() == v@[k as int]);
            }
            if c == '"' {
                push_char(out, '"');
                push_char(out, '"');
                assert(out@ =~= base.push('"') + doubled_quotes(v@.take(k as int + 1)));
            } else {
                push_char(out, c);
                assert(out@ =~= base.push('"') + doubled_quotes(v@.take(k as int + 1)));
            }
            k = k + 1;
        }
        push_char(out, '"');
        proof {
            assert(v@.take(v@.len() as int) =~= v@);
            assert(base.push('"') + doubled_quotes(v@) + seq!['"'] =~= (base.push('"')
                + doubled_quotes(v@)).push('"'));
            assert(base + (seq!['"'] + doubled_quotes(v@) + seq!['"']) =~= base.push('"')
                + doubled_quotes(v@) + seq!['"']);
        }
    }
}

fn append_row(out: &mut String, bm: &RaindropBookmark)
    ensures
        final(out)@ == old(out)@ + encoded_row(*bm),
{
    let ghost base = out@;
    append_encoded_field(out, bm.url.as_str());
    push_char(out, ',');
    append_encoded_field(out, bm.folder.as_str());
    push_char(out, ',');
    append_encoded_field(out, bm.title.as_str());
    push_char(out, ',');
    append_encoded_field(out, bm.description.as_str());
    push_char(out, ',');
    append_encoded_field(out, bm.tags.as_str());
    push_char(out, ',');
    append_encoded_field(out, bm.created.as_str());
    push_char(out, '\n');
    proof {
        assert(out@ =~= base + encoded_row(*bm));
    }
}

/// Encodes the ordered successes as the destination's tabular import
/// text: the header row `url,folder,title,description,tags,created`,
/// then one CSV row per record, in order.
pub fn to_csv(bookmarks: &Vec<RaindropBookmark>) -> (r: String)
    ensures
        r@ == csv_text(bookmarks@),
{
    let mut out = String::from_str("url,folder,title,description,tags,created\n");
    let mut i: usize = 0;
    while i < bookmarks.len()
        invariant
            i <= bookmarks@.len(),
            out@ == csv_text(bookmarks@.take(i as int)),
        decreases bookmarks@.len() - i,
    {
        append_row(&mut out, &bookmarks[i]);
        proof {
            assert(bookmarks@.take(i as int + 1).drop_last() =~= bookmarks@.take(i as int));
            assert(bookmarks@.take(i as int + 1).last() == bookmarks@[i as int]);
        }
        i = i + 1;
    }
    assert(bookmarks@.take(bookmarks@.len() as int) =~= bookmarks@);
    out
}

} // verus!
