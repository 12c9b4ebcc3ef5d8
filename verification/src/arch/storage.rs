//! The streams of the store, the names of its files, and how an abandoned file
//! is cut back to whole lines.
use vstd::prelude::*;
use vstd::arithmetic::power::pow;
use crate::text;
use crate::text::{characters, owned, push_padded, same};
use super::schema::SCHEMA_VERSION;

verus! {

/// A stream of records.
#[derive(Clone, Copy, Debug, PartialEq, Eq, PartialOrd, Ord, Structural)]
pub enum StorageStream {
    PublicMarket,
    PrivateWs,
    Decisions,
    Actions,
    AccountSnapshots,
    System,
}

impl StorageStream {
    /// The name of the stream in file names.
    pub open spec fn stem(self) -> Seq<char> {
        match self {
            StorageStream::PublicMarket => "public_market"@,
            StorageStream::PrivateWs => "private_ws"@,
            StorageStream::Decisions => "decisions"@,
            StorageStream::Actions => "actions"@,
            StorageStream::AccountSnapshots => "account_snapshots"@,
            StorageStream::System => "system"@,
        }
    }

    /// Every stream, in order.
    pub open spec fn every() -> Seq<StorageStream> {
        seq![
            StorageStream::PublicMarket,
            StorageStream::PrivateWs,
            StorageStream::Decisions,
            StorageStream::Actions,
            StorageStream::AccountSnapshots,
            StorageStream::System,
        ]
    }

    /// Every stream, in order.
    pub fn all() -> (r: Vec<StorageStream>)
        ensures
            r@ == StorageStream::every(),
    {
        let r = vec![
            StorageStream::PublicMarket,
            StorageStream::PrivateWs,
            StorageStream::Decisions,
            StorageStream::Actions,
            StorageStream::AccountSnapshots,
            StorageStream::System,
        ];
        proof {
            assert(r@ =~= StorageStream::every());
        }
        r
    }

    pub fn file_stem(self) -> (r: &'static str)
        ensures
            r@ == self.stem(),
    {
        match self {
            StorageStream::PublicMarket => "public_market",
            StorageStream::PrivateWs => "private_ws",
            StorageStream::Decisions => "decisions",
            StorageStream::Actions => "actions",
            StorageStream::AccountSnapshots => "account_snapshots",
            StorageStream::System => "system",
        }
    }
}

/// No two streams share a file, and every stream has one.
pub proof fn law_streams_have_their_own_files(a: StorageStream, b: StorageStream)
    ensures
        a.stem() == b.stem() ==> a == b,
        StorageStream::every().contains(a),
{
    reveal_strlit("public_market");
    reveal_strlit("private_ws");
    reveal_strlit("decisions");
    reveal_strlit("actions");
    reveal_strlit("account_snapshots");
    reveal_strlit("system");
    assert("public_market"@.len() == 13);
    assert("private_ws"@.len() == 10);
    assert("decisions"@.len() == 9);
    assert("actions"@.len() == 7);
    assert("account_snapshots"@.len() == 17);
    assert("system"@.len() == 6);
    let all = StorageStream::every();
    assert(all[0] == StorageStream::PublicMarket);
    assert(all[1] == StorageStream::PrivateWs);
    assert(all[2] == StorageStream::Decisions);
    assert(all[3] == StorageStream::Actions);
    assert(all[4] == StorageStream::AccountSnapshots);
    assert(all[5] == StorageStream::System);
}

/// The names of the streams, in order.
pub open spec fn stream_names() -> Seq<Seq<char>> {
    StorageStream::every().map_values(|stream: StorageStream| stream.stem())
}

pub fn manifest_streams() -> (r: Vec<String>)
    ensures
        text::characters_of(r@) == stream_names(),
{
    let all = StorageStream::all();
    let mut out: Vec<String> = Vec::new();
    let mut i: usize = 0;
    while i < all.len()
        invariant
            i <= all@.len(),
            all@ == StorageStream::every(),
            out@.len() == i,
            stream_names().len() == all@.len(),
            text::characters_of(out@) == stream_names().take(i as int),
        decreases all@.len() - i,
    {
        let ghost before = out@;
        out.push(owned(all[i].file_stem()));
        i = i + 1;
        proof {
            assert forall|j: int| 0 <= j < i implies text::characters_of(out@)[j] == stream_names()[j] by {
                if j < i - 1 {
                    assert(text::characters_of(before)[j] == stream_names().take(i - 1)[j]);
                }
            }
            assert(text::characters_of(out@) =~= stream_names().take(i as int));
        }
    }
    proof {
        assert(stream_names().take(all@.len() as int) =~= stream_names());
    }
    out
}

pub fn schema_version() -> (r: u16)
    ensures
        r == SCHEMA_VERSION,
{
    SCHEMA_VERSION
}

/// The key of a UTC hour, such as `20260827T09`.
pub open spec fn hour_key_text(year: u32, month: u32, day: u32, hour: u32) -> Seq<char> {
    text::padded(year as nat, 4) + text::padded(month as nat, 2) + text::padded(day as nat, 2)
        + "T"@ + text::padded(hour as nat, 2)
}

/// The key of a UTC hour.
pub fn utc_hour_key(year: u32, month: u32, day: u32, hour: u32) -> (r: String)
    ensures
        r@ == hour_key_text(year, month, day, hour),
{
    let mut out = String::new();
    push_padded(&mut out, year as u64, 4);
    push_padded(&mut out, month as u64, 2);
    push_padded(&mut out, day as u64, 2);
    out.append("T");
    push_padded(&mut out, hour as u64, 2);
    proof {
        assert(out@ =~= hour_key_text(year, month, day, hour));
    }
    out
}

/// The name of a stream's active file.
pub open spec fn active_name(stream: StorageStream, hour_key: Seq<char>) -> Seq<char> {
    stream.stem() + ".part-"@ + hour_key + ".jsonl.partial"@
}

/// The name of a stream's active file in an hour.
pub fn segment_name(stream: StorageStream, hour_key: &str) -> (r: String)
    ensures
        r@ == active_name(stream, hour_key@),
{
    let mut out = owned(stream.file_stem());
    out.append(".part-");
    out.append(hour_key);
    out.append(".jsonl.partial");
    out
}

/// The line of a checksum file.
pub open spec fn checksum_text(checksum: Seq<char>, file_name: Seq<char>) -> Seq<char> {
    checksum + "  "@ + file_name + "\n"@
}

/// The line of a checksum file.
pub fn checksum_line(checksum: &str, file_name: &str) -> (r: String)
    ensures
        r@ == checksum_text(checksum@, file_name@),
{
    let mut out = owned(checksum);
    out.append("  ");
    out.append(file_name);
    out.append("\n");
    out
}

/// Some open file belongs to another hour.
pub open spec fn is_rotation_due(open_hours: Seq<String>, current: Seq<char>) -> bool {
    exists|i: int| 0 <= i < open_hours.len() && (#[trigger] open_hours[i])@ != current
}

/// Whether the open files are to be closed and new ones opened.
pub fn rotation_due(open_hours: &Vec<String>, current: &str) -> (r: bool)
    ensures
        r == is_rotation_due(open_hours@, current@),
{
    let mut i: usize = 0;
    while i < open_hours.len()
        invariant
            i <= open_hours@.len(),
            forall|j: int| 0 <= j < i ==> (#[trigger] open_hours@[j])@ == current@,
        decreases open_hours@.len() - i,
    {
        if !same(open_hours[i].as_str(), current) {
            return true;
        }
        i = i + 1;
    }
    false
}

/// `s` ends with `part`.
pub open spec fn is_suffix(s: Seq<char>, part: Seq<char>) -> bool {
    part.len() <= s.len() && s.skip(s.len() - part.len()) == part
}

/// A name with another ending.
pub open spec fn with_ending(name: Seq<char>, old: Seq<char>, new: Seq<char>) -> Option<Seq<char>> {
    if is_suffix(name, old) {
        Some(name.take(name.len() - old.len()) + new)
    } else {
        None
    }
}

/// The name of an active file once it is finished.
pub open spec fn finished(name: Seq<char>) -> Option<Seq<char>> {
    with_ending(name, ".partial"@, ".ready"@)
}

/// The name of a finished file once it is compressed.
pub open spec fn compressed(name: Seq<char>) -> Option<Seq<char>> {
    with_ending(name, ".ready"@, ".zst"@)
}

/// The name of the file that holds a checksum.
pub open spec fn checksum_file(name: Seq<char>) -> Seq<char> {
    name + ".sha256"@
}

/// An active file ends in `.jsonl.partial`, is finished as `.jsonl.ready` and
/// kept as `.jsonl.zst`.
pub proof fn law_segments_end_compressed(stream: StorageStream, hour_key: Seq<char>)
    ensures
        finished(active_name(stream, hour_key)) == Some(
            stream.stem() + ".part-"@ + hour_key + ".jsonl.ready"@,
        ),
        compressed(stream.stem() + ".part-"@ + hour_key + ".jsonl.ready"@) == Some(
            stream.stem() + ".part-"@ + hour_key + ".jsonl.zst"@,
        ),
{
    reveal_strlit(".jsonl.partial");
    reveal_strlit(".jsonl.ready");
    reveal_strlit(".jsonl.zst");
    reveal_strlit(".partial");
    reveal_strlit(".ready");
    reveal_strlit(".zst");
    let front = stream.stem() + ".part-"@ + hour_key;
    let active = front + ".jsonl.partial"@;
    let ready = front + ".jsonl.ready"@;
    assert(active.skip(active.len() - 8) =~= ".partial"@);
    assert(active.take(active.len() - 8) + ".ready"@ =~= ready);
    assert(ready.skip(ready.len() - 6) =~= ".ready"@);
    assert(ready.take(ready.len() - 6) + ".zst"@ =~= front + ".jsonl.zst"@);
}

fn change_ending(name: &str, old: &str, new: &str) -> (r: Option<String>)
    ensures
        match r {
            Some(changed) => with_ending(name@, old@, new@) == Some(changed@),
            None => with_ending(name@, old@, new@) is None,
        },
{
    let chars = characters(name);
    if !has_suffix(&chars, old) {
        return None;
    }
    let kept: usize = chars.len() - characters(old).len();
    let mut out = name.substring_char(0, kept).to_owned();
    out.append(new);
    Some(out)
}

/// The name of an active file once it is finished. Other files have none.
pub fn finished_name(name: &str) -> (r: Option<String>)
    ensures
        match r {
            Some(changed) => finished(name@) == Some(changed@),
            None => finished(name@) is None,
        },
{
    change_ending(name, ".partial", ".ready")
}

/// The name of a finished file once it is compressed. Other files have none.
pub fn compressed_name(name: &str) -> (r: Option<String>)
    ensures
        match r {
            Some(changed) => compressed(name@) == Some(changed@),
            None => compressed(name@) is None,
        },
{
    change_ending(name, ".ready", ".zst")
}

/// The name of the file that holds the checksum of a file.
pub fn checksum_name(name: &str) -> (r: String)
    ensures
        r@ == checksum_file(name@),
{
    owned(name).concat(".sha256")
}

/// What the store does with a file that an earlier process left.
#[derive(Clone, Copy, Debug, PartialEq, Eq, Structural)]
pub enum LeftFile {
    /// An active file: it is cut back to whole lines and then compressed.
    Abandoned,
    /// A finished file: it is compressed.
    Ready,
    /// Anything else stays as it is.
    Other,
}

/// What a file is, by its path: an active file ends in `.jsonl.partial`, a
/// finished one has the extension `ready`.
pub open spec fn left_file_of(path: Seq<char>) -> LeftFile {
    if is_suffix(path, ".jsonl.partial"@) {
        LeftFile::Abandoned
    } else if is_suffix(path, ".ready"@) && path.len() > 6 && path[path.len() - 7] != '/' {
        LeftFile::Ready
    } else {
        LeftFile::Other
    }
}

fn has_suffix(chars: &Vec<char>, part: &str) -> (r: bool)
    ensures
        r == is_suffix(chars@, part@),
{
    let wanted = characters(part);
    if wanted.len() > chars.len() {
        return false;
    }
    let start: usize = chars.len() - wanted.len();
    let mut i: usize = 0;
    while i < wanted.len()
        invariant
            wanted@ == part@,
            start + wanted@.len() == chars@.len(),
            chars@.len() <= usize::MAX,
            i <= wanted@.len(),
            forall|j: int| 0 <= j < i ==> chars@[start + j] == part@[j],
        decreases wanted@.len() - i,
    {
        if chars[start + i] != wanted[i] {
            proof {
                assert(chars@.skip(start as int)[i as int] != part@[i as int]);
            }
            return false;
        }
        i = i + 1;
    }
    proof {
        assert(chars@.skip(start as int) =~= part@);
    }
    true
}

/// What a file that an earlier process left is.
pub fn left_file(path: &str) -> (r: LeftFile)
    ensures
        r == left_file_of(path@),
{
    let chars = characters(path);
    let n = chars.len();
    if has_suffix(&chars, ".jsonl.partial") {
        LeftFile::Abandoned
    } else if has_suffix(&chars, ".ready") && n > 6 && chars[n - 7] != '/' {
        LeftFile::Ready
    } else {
        LeftFile::Other
    }
}

/// The byte that ends a line.
pub const NEWLINE: u8 = 10;

/// The largest piece of a file that is read at once.
pub const CHUNK: u64 = 65_536;

/// The length of the whole lines of a file: all bytes up to and with the last
/// newline.
pub open spec fn whole_lines(bytes: Seq<u8>) -> nat
    decreases bytes.len(),
{
    if bytes.len() == 0 {
        0
    } else if bytes.last() == NEWLINE {
        bytes.len()
    } else {
        whole_lines(bytes.drop_last())
    }
}

/// The search for the last newline of a file, from its end.
#[derive(Clone, Copy, Debug, PartialEq, Eq, Structural)]
pub struct TailScan {
    position: u64,
}

/// No newline stands in the bytes.
pub open spec fn has_no_newline(bytes: Seq<u8>) -> bool {
    forall|i: int| 0 <= i < bytes.len() ==> bytes[i] != NEWLINE
}

impl TailScan {
    /// Everything from here on has been searched.
    pub closed spec fn searched_from(self) -> nat {
        self.position as nat
    }

    /// A search through a file of the given length.
    pub fn new(length: u64) -> (r: TailScan)
        ensures
            r.searched_from() == length,
    {
        TailScan { position: length }
    }

    /// The piece to read next: where it starts and how long it is. None is left
    /// once the whole file has been searched.
    pub fn next_chunk(&self) -> (r: Option<(u64, usize)>)
        ensures
            match r {
                Some((start, count)) => 0 < count <= CHUNK && start + count
                    == self.searched_from(),
                None => self.searched_from() == 0,
            },
    {
        if self.position == 0 {
            return None;
        }
        let count: u64 = if self.position < CHUNK {
            self.position
        } else {
            CHUNK
        };
        Some((self.position - count, count as usize))
    }

    /// Searches a piece. Gives the length to which the file is to be cut where a
    /// newline is found.
    pub fn examine(&mut self, chunk: &[u8]) -> (r: Option<u64>)
        requires
            chunk@.len() <= old(self).searched_from(),
        ensures
            match r {
                Some(length) => {
                    let start = old(self).searched_from() - chunk@.len();
                    &&& start < length <= old(self).searched_from()
                    &&& chunk@[length - start - 1] == NEWLINE
                    &&& has_no_newline(chunk@.skip(length - start))
                    &&& *final(self) == *old(self)
                },
                None => has_no_newline(chunk@) && final(self).searched_from() == old(
                    self,
                ).searched_from() - chunk@.len(),
            },
    {
        let start: u64 = self.position - chunk.len() as u64;
        let mut i: usize = chunk.len();
        while i > 0
            invariant
                i <= chunk@.len(),
                start + chunk@.len() == self.position,
                *self == *old(self),
                forall|j: int| i <= j < chunk@.len() ==> chunk@[j] != NEWLINE,
            decreases i,
        {
            i = i - 1;
            if chunk[i] == NEWLINE {
                return Some(start + i as u64 + 1);
            }
        }
        self.position = start;
        None
    }
}

/// Bytes without a newline add nothing to the whole lines.
proof fn lemma_tail_is_dropped(bytes: Seq<u8>, n: int)
    requires
        0 <= n <= bytes.len(),
        has_no_newline(bytes.skip(n)),
    ensures
        whole_lines(bytes) == whole_lines(bytes.take(n)),
    decreases bytes.len() - n,
{
    if n < bytes.len() {
        assert(bytes.last() == bytes.skip(n)[bytes.len() - n - 1]);
        assert(bytes.drop_last().skip(n) =~= bytes.skip(n).drop_last());
        assert(bytes.drop_last().take(n) =~= bytes.take(n));
        lemma_tail_is_dropped(bytes.drop_last(), n);
    } else {
        assert(bytes.take(n) =~= bytes);
    }
}

/// Where a search has found no newline from `from` on and finds the last one of
/// the piece before it, the cut leaves exactly the whole lines of the file.
pub proof fn law_cut_keeps_whole_lines(bytes: Seq<u8>, start: nat, from: nat, length: nat)
    requires
        start < length <= from <= bytes.len(),
        has_no_newline(bytes.skip(from as int)),
        bytes.subrange(start as int, from as int)[length - start - 1] == NEWLINE,
        has_no_newline(bytes.subrange(start as int, from as int).skip(length - start)),
    ensures
        length == whole_lines(bytes),
{
    let piece = bytes.subrange(start as int, from as int);
    assert forall|i: int| 0 <= i < bytes.skip(length as int).len() implies bytes.skip(
        length as int,
    )[i] != NEWLINE by {
        if length + i < from {
            assert(piece.skip(length - start)[i] == bytes[length + i]);
        } else {
            assert(bytes.skip(from as int)[length + i - from] == bytes[length + i]);
        }
    }
    lemma_tail_is_dropped(bytes, length as int);
    assert(bytes.take(length as int).last() == piece[length - start - 1]);
}

/// Where a search has found no newline from `from` on and finds none in the
/// piece before it, there is none from the start of that piece on.
pub proof fn law_search_goes_on(bytes: Seq<u8>, start: nat, from: nat)
    requires
        start <= from <= bytes.len(),
        has_no_newline(bytes.skip(from as int)),
        has_no_newline(bytes.subrange(start as int, from as int)),
    ensures
        has_no_newline(bytes.skip(start as int)),
{
    let piece = bytes.subrange(start as int, from as int);
    assert forall|i: int| 0 <= i < bytes.skip(start as int).len() implies bytes.skip(
        start as int,
    )[i] != NEWLINE by {
        if start + i < from {
            assert(piece[i] == bytes[start + i]);
        } else {
            assert(bytes.skip(from as int)[start + i - from] == bytes[start + i]);
        }
    }
}

/// A file without a newline is cut to nothing.
pub proof fn law_no_line_leaves_nothing(bytes: Seq<u8>)
    requires
        has_no_newline(bytes),
    ensures
        whole_lines(bytes) == 0,
{
    assert(bytes.skip(0) =~= bytes);
    lemma_tail_is_dropped(bytes, 0);
}

/// Different hours have different keys, so no two hours of a stream share a file.
pub proof fn law_hours_have_their_own_keys(
    year: u32,
    month: u32,
    day: u32,
    hour: u32,
    other_year: u32,
    other_month: u32,
    other_day: u32,
    other_hour: u32,
)
    requires
        year < 10000 && other_year < 10000,
        month < 100 && other_month < 100,
        day < 100 && other_day < 100,
        hour < 100 && other_hour < 100,
        hour_key_text(year, month, day, hour) == hour_key_text(
            other_year,
            other_month,
            other_day,
            other_hour,
        ),
    ensures
        year == other_year,
        month == other_month,
        day == other_day,
        hour == other_hour,
{
    reveal_strlit("T");
    assert(pow(10, 4) == 10000 && pow(10, 2) == 100) by {
        reveal_with_fuel(pow, 5);
    }
    text::lemma_padded_width(year as nat, 4);
    text::lemma_padded_width(other_year as nat, 4);
    text::lemma_padded_width(month as nat, 2);
    text::lemma_padded_width(other_month as nat, 2);
    text::lemma_padded_width(day as nat, 2);
    text::lemma_padded_width(other_day as nat, 2);
    text::lemma_padded_width(hour as nat, 2);
    text::lemma_padded_width(other_hour as nat, 2);
    let a = hour_key_text(year, month, day, hour);
    let b = hour_key_text(other_year, other_month, other_day, other_hour);
    assert(a.len() == 11);
    assert(a.subrange(0, 4) =~= text::padded(year as nat, 4));
    assert(b.subrange(0, 4) =~= text::padded(other_year as nat, 4));
    assert(a.subrange(4, 6) =~= text::padded(month as nat, 2));
    assert(b.subrange(4, 6) =~= text::padded(other_month as nat, 2));
    assert(a.subrange(6, 8) =~= text::padded(day as nat, 2));
    assert(b.subrange(6, 8) =~= text::padded(other_day as nat, 2));
    assert(a.subrange(9, 11) =~= text::padded(hour as nat, 2));
    assert(b.subrange(9, 11) =~= text::padded(other_hour as nat, 2));
}

/// Files are changed for new ones exactly when one of them is of another hour.
pub proof fn law_files_are_changed_with_the_hour(
    open_hours: Seq<String>,
    last: String,
    current: Seq<char>,
)
    ensures
        !is_rotation_due(Seq::empty(), current),
        last@ != current ==> is_rotation_due(open_hours.push(last), current),
        last@ == current ==> is_rotation_due(open_hours.push(last), current) == is_rotation_due(
            open_hours,
            current,
        ),
{
    let all = open_hours.push(last);
    assert(all[open_hours.len() as int] == last);
    if is_rotation_due(open_hours, current) {
        let i = choose|i: int| 0 <= i < open_hours.len() && (#[trigger] open_hours[i])@ != current;
        assert(all[i]@ != current);
    }
    if is_rotation_due(all, current) && last@ == current {
        let i = choose|i: int| 0 <= i < all.len() && (#[trigger] all[i])@ != current;
        assert(open_hours[i]@ != current);
    }
}

/// An active file that was left is cut back, a finished one is compressed, and a
/// compressed one stays.
pub proof fn law_left_files_are_taken_up(stream: StorageStream, hour_key: Seq<char>)
    requires
        hour_key.len() > 0,
    ensures
        left_file_of(active_name(stream, hour_key)) == LeftFile::Abandoned,
        left_file_of(stream.stem() + ".part-"@ + hour_key + ".jsonl.ready"@) == LeftFile::Ready,
        left_file_of(stream.stem() + ".part-"@ + hour_key + ".jsonl.zst"@) == LeftFile::Other,
{
    reveal_strlit(".jsonl.partial");
    reveal_strlit(".jsonl.ready");
    reveal_strlit(".jsonl.zst");
    reveal_strlit(".ready");
    let front = stream.stem() + ".part-"@ + hour_key;
    let active = front + ".jsonl.partial"@;
    let ready = front + ".jsonl.ready"@;
    let kept = front + ".jsonl.zst"@;
    assert(active.skip(active.len() - 14) =~= ".jsonl.partial"@);
    assert(ready.skip(ready.len() - 6) =~= ".ready"@);
    assert(ready[ready.len() - 7] == 'l');
    assert(ready.last() == 'y' && kept.last() == 't');
    assert(".jsonl.partial"@.last() == 'l' && ".ready"@.last() == 'y');
    if is_suffix(ready, ".jsonl.partial"@) {
        assert(ready.skip(ready.len() - 14).last() == 'l');
    }
    if is_suffix(kept, ".jsonl.partial"@) {
        assert(kept.skip(kept.len() - 14).last() == 'l');
    }
    if is_suffix(kept, ".ready"@) {
        assert(kept.skip(kept.len() - 6).last() == 'y');
    }
}

} // verus!
