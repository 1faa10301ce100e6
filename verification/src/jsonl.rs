use vstd::prelude::*;

verus! {

/// Unicode's White_Space property: the characters that trimming a journal
/// line removes from either end.
pub open spec fn is_white_space(c: char) -> bool {
    let u = c as u32;
    ||| 0x9 <= u <= 0xd
    ||| u == 0x20
    ||| u == 0x85
    ||| u == 0xa0
    ||| u == 0x1680
    ||| 0x2000 <= u <= 0x200a
    ||| u == 0x2028
    ||| u == 0x2029
    ||| u == 0x202f
    ||| u == 0x205f
    ||| u == 0x3000
}

/// The pieces of a text between its line feeds, in order. A text ending in
/// a line feed has an empty last piece.
pub open spec fn split_lines(text: Seq<char>) -> Seq<Seq<char>>
    decreases text.len(),
{
    if text.len() == 0 {
        seq![Seq::<char>::empty()]
    } else {
        let pieces = split_lines(text.drop_last());
        if text.last() == '\n' {
            pieces.push(Seq::empty())
        } else {
            pieces.update(pieces.len() - 1, pieces.last().push(text.last()))
        }
    }
}

pub open spec fn trim_start(s: Seq<char>) -> Seq<char>
    decreases s.len(),
{
    if s.len() > 0 && is_white_space(s[0]) {
        trim_start(s.drop_first())
    } else {
        s
    }
}

pub open spec fn trim_end(s: Seq<char>) -> Seq<char>
    decreases s.len(),
{
    if s.len() > 0 && is_white_space(s.last()) {
        trim_end(s.drop_last())
    } else {
        s
    }
}

/// A line without the white space at either end.
pub open spec fn trim(s: Seq<char>) -> Seq<char> {
    trim_end(trim_start(s))
}

/// The records of a list of lines: each line trimmed, blank lines left out.
pub open spec fn records_of(lines: Seq<Seq<char>>) -> Seq<Seq<char>>
    decreases lines.len(),
{
    if lines.len() == 0 {
        Seq::empty()
    } else {
        let earlier = records_of(lines.drop_last());
        if trim(lines.last()).len() == 0 {
            earlier
        } else {
            earlier.push(trim(lines.last()))
        }
    }
}

/// The records of a journal file's text: one per non-blank line, trimmed,
/// in file order.
pub open spec fn journal_records(text: Seq<char>) -> Seq<Seq<char>> {
    records_of(split_lines(text))
}

/// The text of a journal file written as one line per record.
pub open spec fn encode_all(records: Seq<Seq<char>>) -> Seq<char>
    decreases records.len(),
{
    if records.len() == 0 {
        Seq::empty()
    } else {
        encode_all(records.drop_last()) + records.last().push('\n')
    }
}

/// Whether a record can stand on a line of its own and be read back as it
/// is: it is not blank, holds no line feed, and has no white space at
/// either end.
pub open spec fn is_line_record(r: Seq<char>) -> bool {
    &&& r.len() > 0
    &&& !r.contains('\n')
    &&& trim(r) == r
}

proof fn lemma_split_append_chunk(t: Seq<char>, x: Seq<char>)
    requires
        !x.contains('\n'),
    ensures
        split_lines(t + x) == split_lines(t).update(
            split_lines(t).len() - 1,
            split_lines(t).last() + x,
        ),
    decreases x.len(),
{
    lemma_split_lines_nonempty(t);
    if x.len() == 0 {
        assert(t + x =~= t);
        let p = split_lines(t);
        assert(p.last() + x =~= p.last());
        assert(p.update(p.len() - 1, p.last()) =~= p);
    } else {
        let y = x.drop_last();
        assert(!y.contains('\n')) by {
            if y.contains('\n') {
                let k = choose|k: int| 0 <= k < y.len() && y[k] == '\n';
                assert(x[k] == '\n');
            }
        }
        assert(x.last() != '\n') by {
            assert(x[x.len() - 1] == x.last());
        }
        lemma_split_append_chunk(t, y);
        assert((t + x).drop_last() =~= t + y);
        assert((t + x).last() == x.last());
        lemma_split_lines_nonempty(t + y);
        let p = split_lines(t);
        assert((p.last() + y).push(x.last()) =~= p.last() + x);
        assert(split_lines(t + x) =~= p.update(p.len() - 1, p.last() + x));
    }
}

proof fn lemma_split_encoded(records: Seq<Seq<char>>)
    requires
        forall|i: int| 0 <= i < records.len() ==> !(#[trigger] records[i]).contains('\n'),
    ensures
        split_lines(encode_all(records)) == records.push(Seq::empty()),
    decreases records.len(),
{
    if records.len() == 0 {
        assert(split_lines(Seq::empty()) =~= seq![Seq::<char>::empty()]);
        assert(records.push(Seq::empty()) =~= seq![Seq::<char>::empty()]);
    } else {
        let prev = records.drop_last();
        let r = records.last();
        assert(forall|i: int| 0 <= i < prev.len() ==> prev[i] == records[i]);
        lemma_split_encoded(prev);
        let t = encode_all(prev);
        assert(!r.contains('\n')) by {
            assert(records[records.len() - 1] == r);
        }
        lemma_split_append_chunk(t, r);
        assert(Seq::<char>::empty() + r =~= r);
        let with_r = t + r;
        assert(encode_all(records) =~= with_r.push('\n'));
        assert(with_r.push('\n').drop_last() =~= with_r);
        assert(split_lines(with_r) =~= prev.push(r));
        assert(prev.push(r) =~= records);
    }
}

proof fn lemma_records_of_line_records(lines: Seq<Seq<char>>)
    requires
        forall|i: int| 0 <= i < lines.len() ==> is_line_record(#[trigger] lines[i]),
    ensures
        records_of(lines) == lines,
    decreases lines.len(),
{
    if lines.len() > 0 {
        let prev = lines.drop_last();
        assert(forall|i: int| 0 <= i < prev.len() ==> prev[i] == lines[i]);
        lemma_records_of_line_records(prev);
        assert(is_line_record(lines[lines.len() - 1]));
        assert(prev.push(lines.last()) =~= lines);
    }
}

/// Reading back what was written: the text made of one encoded line per
/// record gives exactly those records, in order, when each can stand on a
/// line of its own.
pub proof fn lemma_decode_encoded(records: Seq<Seq<char>>)
    requires
        forall|i: int| 0 <= i < records.len() ==> is_line_record(#[trigger] records[i]),
    ensures
        journal_records(encode_all(records)) == records,
{
    assert forall|i: int| 0 <= i < records.len() implies !(#[trigger] records[i]).contains('\n') by {
        assert(is_line_record(records[i]));
    }
    lemma_split_encoded(records);
    lemma_records_of_line_records(records);
    let empty = Seq::<char>::empty();
    assert(records.push(empty).drop_last() =~= records);
    assert(trim_start(empty) == empty);
}

/// Whether a character has Unicode's White_Space property.
pub fn is_white_space_char(c: char) -> (b: bool)
    ensures
        b == is_white_space(c),
{
    let u = c as u32;
    (0x9 <= u && u <= 0xd) || u == 0x20 || u == 0x85 || u == 0xa0 || u == 0x1680 || (0x2000 <= u
        && u <= 0x200a) || u == 0x2028 || u == 0x2029 || u == 0x202f || u == 0x205f || u == 0x3000
}

/// The line of the journal file that holds one record: the record's text
/// followed by a line feed.
pub fn encode_record(record: &str) -> (line: String)
    ensures
        line@ == record@.push('\n'),
{
    let line = record.to_owned().concat("\n");
    proof {
        reveal_strlit("\n");
    }
    line
}

/// Split the text of a journal file into its records: its lines, each
/// trimmed of white space, blank ones left out.
pub fn decode_records(text: &str) -> (records: Vec<String>)
    ensures
        texts(records@) == journal_records(text@),
{
    let mut records: Vec<String> = Vec::new();
    let mut line: Vec<char> = Vec::new();
    let ghost mut seen: Seq<char> = Seq::empty();
    proof {
        assert(texts(records@) =~= Seq::empty());
        assert(line@ =~= split_lines(seen).last());
    }
    for c in it: text.chars()
        invariant
            it.seq() == text@,
            seen == it.seq().take(it.index()),
            texts(records@) == records_of(split_lines(seen).drop_last()),
            line@ == split_lines(seen).last(),
    {
        let ghost before = seen;
        proof {
            seen = seen.push(c);
            assert(it.seq().take(it.index() + 1) =~= seen);
            assert(seen.drop_last() =~= before);
            lemma_split_lines_nonempty(before);
        }
        if c == '\n' {
            push_record(&mut records, &line);
            line = Vec::new();
            proof {
                let pieces = split_lines(before);
                assert(pieces.drop_last().push(pieces.last()) =~= pieces);
                assert(split_lines(seen).drop_last() =~= pieces);
                assert(line@ =~= split_lines(seen).last());
            }
        } else {
            line.push(c);
            proof {
                let pieces = split_lines(before);
                assert(split_lines(seen).drop_last() =~= pieces.drop_last());
            }
        }
    }
    push_record(&mut records, &line);
    proof {
        assert(seen =~= text@);
        lemma_split_lines_nonempty(seen);
        let pieces = split_lines(seen);
        assert(pieces.drop_last().push(pieces.last()) =~= pieces);
    }
    records
}

/// The texts of a list of strings.
pub open spec fn texts(v: Seq<String>) -> Seq<Seq<char>> {
    v.map_values(|r: String| r@)
}

proof fn lemma_split_lines_nonempty(text: Seq<char>)
    ensures
        split_lines(text).len() >= 1,
    decreases text.len(),
{
    if text.len() > 0 {
        lemma_split_lines_nonempty(text.drop_last());
    }
}

/// Append the record of one line (trimmed) to `records`, unless the line is
/// blank.
fn push_record(records: &mut Vec<String>, line: &Vec<char>)
    ensures
        texts(final(records)@) == (if trim(line@).len() == 0 {
            texts(old(records)@)
        } else {
            texts(old(records)@).push(trim(line@))
        }),
{
    let (start, end) = trim_bounds(line);
    if start < end {
        let mut record = String::new();
        let mut k: usize = start;
        while k < end
            invariant
                start <= k <= end <= line@.len(),
                record@ == line@.subrange(start as int, k as int),
            decreases end - k,
        {
            push_char(&mut record, line[k]);
            k = k + 1;
            proof {
                assert(record@ =~= line@.subrange(start as int, k as int));
            }
        }
        let ghost before = records@;
        records.push(record);
        proof {
            assert(texts(records@) =~= texts(before).push(record@));
        }
    }
}

/// The bounds of a line without the white space at either end.
fn trim_bounds(line: &Vec<char>) -> (bounds: (usize, usize))
    ensures
        bounds.0 <= bounds.1 <= line@.len(),
        trim(line@) == line@.subrange(bounds.0 as int, bounds.1 as int),
{
    let len = line.len();
    let mut start: usize = 0;
    proof {
        assert(line@.subrange(0, len as int) =~= line@);
    }
    while start < len && is_white_space_char(line[start])
        invariant
            len == line@.len(),
            start <= len,
            trim_start(line@) == trim_start(line@.subrange(start as int, len as int)),
        decreases len - start,
    {
        proof {
            let rest = line@.subrange(start as int, len as int);
            assert(rest.drop_first() =~= line@.subrange(start + 1, len as int));
        }
        start = start + 1;
    }
    proof {
        let rest = line@.subrange(start as int, len as int);
        assert(trim_start(rest) == rest);
    }
    let mut end: usize = len;
    while end > start && is_white_space_char(line[end - 1])
        invariant
            len == line@.len(),
            start <= end <= len,
            trim_end(line@.subrange(start as int, len as int)) == trim_end(
                line@.subrange(start as int, end as int),
            ),
        decreases end - start,
    {
        proof {
            let rest = line@.subrange(start as int, end as int);
            assert(rest.drop_last() =~= line@.subrange(start as int, end - 1));
        }
        end = end - 1;
    }
    (start, end)
}

/// `String::push`: appends one character to the string.
#[verifier::external_body]
fn push_char(s: &mut String, c: char)
    ensures
        final(s)@ == old(s)@.push(c),
{
    s.push(c);
}

} // verus!
