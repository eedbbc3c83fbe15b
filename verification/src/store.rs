//! The append-only log store with threshold-triggered archival.
//!
//! The store holds the current file's exact bytes and every archive
//! produced so far; the caller mirrors both to disk. Appending
//! serializes the record as one line; when the current content is
//! non-empty and would outgrow the byte threshold with the new line,
//! the content is first gzip-archived under a UTC-stamped name and
//! the current file restarts empty, so an archive always holds a
//! strict prefix of the records and no byte is ever lost or
//! duplicated across the rotation.
use crate::clock::utc_now_compact;
use crate::record::{LogEntry, LogEntryV};
use crate::serialize::spec_entry_line;
use crate::serialize::serialize_line;
use vstd::prelude::*;
use vstd::string::StringExecFns;

verus! {

/// The gzip stream that flate2's encoder produces for the given
/// bytes at the default compression level.
pub uninterp spec fn gzip_of(data: Seq<u8>) -> Seq<u8>;

/// Relies on flate2's `GzEncoder` over a `Vec<u8>` sink
/// (`write_all`, then `finish`) at the default level. The encoder
/// writes a fixed header (zero mtime, operating-system byte 255,
/// chosen by flate2 for reproducible streams), so the stream is a
/// function of the input bytes alone; writing to a `Vec` cannot fail.
#[verifier::external_body]
fn gzip_compress(data: &Vec<u8>) -> (r: Vec<u8>)
    ensures
        r@ == gzip_of(data@),
{
    let mut enc = flate2::write::GzEncoder::new(Vec::new(), flate2::Compression::default());
    match std::io::Write::write_all(&mut enc, data.as_slice()) {
        Ok(()) => {}
        Err(_) => {}
    }
    match enc.finish() {
        Ok(v) => v,
        Err(_) => Vec::new(),
    }
}

/// The bytes a record sequence adds to the store, line by line.
pub open spec fn spec_lines(recs: Seq<LogEntryV>) -> Seq<u8>
    decreases recs.len(),
{
    if recs.len() == 0 {
        Seq::empty()
    } else {
        spec_lines(recs.drop_last()) + spec_entry_line(recs.last())
    }
}

/// An ASCII whitespace byte: space, tab, line feed or carriage
/// return — all the serializer can ever emit as whitespace.
pub open spec fn blank_byte(b: u8) -> bool {
    b == 32 || b == 9 || b == 10 || b == 13
}

/// Content that holds nothing worth archiving: empty, or ASCII
/// whitespace only.
pub open spec fn is_blank(s: Seq<u8>) -> bool {
    forall|i: int| 0 <= i < s.len() ==> blank_byte(#[trigger] s[i])
}

/// What one append does to the store at the model level: rotate
/// non-blank current content into a new archive when the line would
/// push it past the threshold, extend the current content with the
/// line, and rotate again at once if the content now exceeds the
/// threshold on its own (an oversized record is archived alone,
/// straight away).
pub open spec fn spec_append_one(
    current: Seq<u8>,
    archives: Seq<Seq<u8>>,
    line: Seq<u8>,
    threshold: nat,
) -> (Seq<u8>, Seq<Seq<u8>>) {
    let staged = if !is_blank(current) && current.len() + line.len() > threshold {
        (line, archives.push(current))
    } else {
        (current + line, archives)
    };
    if staged.0.len() > threshold && !is_blank(staged.0) {
        (Seq::<u8>::empty(), staged.1.push(staged.0))
    } else {
        staged
    }
}

/// The store after appending each record in turn.
pub open spec fn spec_append_all(
    current: Seq<u8>,
    archives: Seq<Seq<u8>>,
    recs: Seq<LogEntryV>,
    threshold: nat,
) -> (Seq<u8>, Seq<Seq<u8>>)
    decreases recs.len(),
{
    if recs.len() == 0 {
        (current, archives)
    } else {
        let prev = spec_append_all(current, archives, recs.drop_last(), threshold);
        spec_append_one(prev.0, prev.1, spec_entry_line(recs.last()), threshold)
    }
}

/// One finished archive: its file name, its gzip bytes, and (as
/// ghost state) the exact uncompressed content it was made from.
pub struct ArchiveFile {
    pub name: String,
    pub data: Vec<u8>,
    pub plain: Ghost<Seq<u8>>,
}

impl ArchiveFile {
    /// The archive really is the compression of its recorded
    /// content, and no archive is ever made from an empty or
    /// whitespace-only file.
    pub open spec fn wf(self) -> bool {
        &&& self.data@ == gzip_of(self.plain@)
        &&& !is_blank(self.plain@)
    }
}

/// An archive file name of the form `logs_<stamp>.gz`, the stamp a
/// compact UTC timestamp: at least fourteen characters, digits
/// throughout but for an optional single leading `+` (a far-future
/// year is written signed) — safe to join into a file path.
pub open spec fn stamped_archive_name(name: Seq<char>, stamp: Seq<char>) -> bool {
    &&& name == "logs_"@ + stamp + ".gz"@
    &&& stamp.len() >= 14
    &&& ('0' <= stamp[0] <= '9' || stamp[0] == '+')
    &&& forall|i: int| 1 <= i < stamp.len() ==> '0' <= #[trigger] stamp[i] <= '9'
}

/// Whether the bytes are empty or ASCII whitespace only,
/// [`is_blank`] exactly.
fn is_blank_bytes(s: &Vec<u8>) -> (r: bool)
    ensures
        r == is_blank(s@),
{
    let mut i: usize = 0;
    while i < s.len()
        invariant
            i <= s@.len(),
            forall|j: int| 0 <= j < i ==> blank_byte(#[trigger] s@[j]),
        decreases s@.len() - i,
    {
        let b = s[i];
        if !(b == 32 || b == 9 || b == 10 || b == 13) {
            assert(!blank_byte(s@[i as int]));
            return false;
        }
        i = i + 1;
    }
    true
}

/// The append-only store: the current file's bytes, the archives in
/// the order they were produced, and the rotation byte threshold.
pub struct LogStore {
    pub threshold: usize,
    pub current: Vec<u8>,
    pub archives: Vec<ArchiveFile>,
}

impl LogStore {
    pub open spec fn wf(self) -> bool {
        forall|i: int| 0 <= i < self.archives@.len() ==> (#[trigger] self.archives@[i]).wf()
    }

    /// The uncompressed content of each archive, oldest first.
    pub open spec fn archive_plains(self) -> Seq<Seq<u8>> {
        Seq::new(self.archives@.len(), |i: int| self.archives@[i].plain@)
    }

    /// Every byte ever appended and kept: the archives' contents in
    /// order, then the current file. Appends only ever extend this.
    pub open spec fn all_content(self) -> Seq<u8> {
        self.archive_plains().flatten() + self.current@
    }

    /// A fresh store with nothing appended yet.
    pub fn new(threshold: usize) -> (r: LogStore)
        ensures
            r.wf(),
            r.threshold == threshold,
            r.current@ =~= Seq::<u8>::empty(),
            r.archives@.len() == 0,
    {
        LogStore { threshold, current: Vec::new(), archives: Vec::new() }
    }

    /// Archival: gzips the current content into a new archive named
    /// by the current UTC timestamp and empties the current file.
    /// With blank current content — empty, or whitespace only — this
    /// is a no-op: no empty or whitespace-only archive is ever
    /// created, and calling it again is a no-op too.
    pub fn rotate(&mut self)
        requires
            old(self).wf(),
        ensures
            final(self).wf(),
            final(self).threshold == old(self).threshold,
            final(self).all_content() == old(self).all_content(),
            is_blank(old(self).current@) ==> *final(self) == *old(self),
            !is_blank(old(self).current@) ==> {
                &&& final(self).current@.len() == 0
                &&& final(self).archives@.len() == old(self).archives@.len() + 1
                &&& final(self).archives@.subrange(0, old(self).archives@.len() as int)
                    == old(self).archives@
                &&& final(self).archives@.last().plain@ == old(self).current@
                &&& final(self).archives@.last().data@ == gzip_of(old(self).current@)
                &&& (exists|stamp: Seq<char>|
                    stamped_archive_name(final(self).archives@.last().name@, stamp))
            },
    {
        broadcast use vstd::seq_lib::group_seq_properties;

        if is_blank_bytes(&self.current) {
            return ;
        }
        let stamp = utc_now_compact();
        let mut name = String::new();
        name.append("logs_");
        name.append(stamp.as_str());
        name.append(".gz");
        let data = gzip_compress(&self.current);
        let ghost prior = self.archive_plains();
        let ghost content = self.current@;
        let archive = ArchiveFile { name, data, plain: Ghost(self.current@) };
        self.archives.push(archive);
        self.current = Vec::new();
        proof {
            assert(exists|s: Seq<char>|
                stamped_archive_name(self.archives@.last().name@, s)) by {
                assert(self.archives@.last().name@ == "logs_"@ + stamp@ + ".gz"@);
                assert(stamped_archive_name(self.archives@.last().name@, stamp@));
            }
            assert(self.archives@.subrange(0, old(self).archives@.len() as int)
                =~= old(self).archives@);
            assert(self.archive_plains() =~= prior.push(content));
            prior.lemma_flatten_push(content);
            assert(self.all_content() =~= old(self).all_content());
        }
    }

    /// Appends one record as one line, [`spec_append_one`] exactly.
    /// Non-blank current content that the line would push past the
    /// threshold is archived first, so an ordinary new record lands
    /// in a fresh current file and never in that archive; a record
    /// whose lone line exceeds the threshold is then archived by
    /// itself at once. Returns the line's bytes and whether any
    /// rotation happened, for the caller to replay against the file
    /// system.
    pub fn append(&mut self, e: &LogEntry) -> (r: (Vec<u8>, bool))
        requires
            old(self).wf(),
        ensures
            final(self).wf(),
            final(self).threshold == old(self).threshold,
            r.0@ == spec_entry_line(e@),
            final(self).current@ == spec_append_one(
                old(self).current@,
                old(self).archive_plains(),
                spec_entry_line(e@),
                old(self).threshold as nat,
            ).0,
            final(self).archive_plains() == spec_append_one(
                old(self).current@,
                old(self).archive_plains(),
                spec_entry_line(e@),
                old(self).threshold as nat,
            ).1,
            r.1 == (final(self).archives@.len() != old(self).archives@.len()),
            final(self).archives@.subrange(0, old(self).archives@.len() as int) == old(
                self,
            ).archives@,
            final(self).all_content() == old(self).all_content() + spec_entry_line(e@),
    {
        let line = serialize_line(e);
        let pre: bool = !is_blank_bytes(&self.current) && (self.current.len() > self.threshold
            || line.len() > self.threshold - self.current.len());
        if pre {
            self.rotate();
        }
        let ghost before = self.current@;
        let ghost mid_archives = self.archives@;
        proof {
            assert(self.current@ =~= before + line@.take(0));
        }
        let mut k: usize = 0;
        while k < line.len()
            invariant
                k <= line@.len(),
                self.current@ == before + line@.take(k as int),
                self.threshold == old(self).threshold,
                self.archives@ == mid_archives,
                self.wf(),
            decreases line@.len() - k,
        {
            self.current.push(line[k]);
            assert(self.current@ =~= before + line@.take(k + 1));
            k = k + 1;
        }
        proof {
            assert(line@.take(line@.len() as int) =~= line@);
            assert(self.current@ =~= before + line@);
            if !pre {
                assert(self.current@ =~= old(self).current@ + spec_entry_line(e@));
            } else {
                assert(before =~= Seq::<u8>::empty());
                assert(self.current@ =~= spec_entry_line(e@));
            }
            assert(self.all_content() =~= old(self).all_content() + spec_entry_line(e@));
        }
        let ghost staged_current = self.current@;
        let ghost staged_plains = self.archive_plains();
        let post: bool = self.current.len() > self.threshold && !is_blank_bytes(&self.current);
        if post {
            self.rotate();
            proof {
                assert(self.archive_plains() =~= staged_plains.push(staged_current));
                assert(self.current@ =~= Seq::<u8>::empty());
            }
        }
        proof {
            if pre {
                assert(staged_plains =~= old(self).archive_plains().push(old(self).current@));
            } else {
                assert(staged_plains =~= old(self).archive_plains());
            }
            assert(self.archives@.subrange(0, old(self).archives@.len() as int) =~= old(
                self,
            ).archives@);
            assert(self.all_content() =~= old(self).all_content() + spec_entry_line(e@));
        }
        (line, pre || post)
    }

    /// Appends a whole batch in order. The resulting current content
    /// and archive contents are exactly the model fold
    /// [`spec_append_all`] of the starting state, and the store's
    /// total content grows by exactly the batch's lines.
    pub fn append_all(&mut self, recs: &Vec<LogEntry>)
        requires
            old(self).wf(),
        ensures
            final(self).wf(),
            final(self).threshold == old(self).threshold,
            final(self).current@ == spec_append_all(
                old(self).current@,
                old(self).archive_plains(),
                recs.deep_view(),
                old(self).threshold as nat,
            ).0,
            final(self).archive_plains() == spec_append_all(
                old(self).current@,
                old(self).archive_plains(),
                recs.deep_view(),
                old(self).threshold as nat,
            ).1,
            final(self).all_content() == old(self).all_content() + spec_lines(recs.deep_view()),
    {
        let ghost rv = recs.deep_view();
        let ghost cur0 = self.current@;
        let ghost arch0 = self.archive_plains();
        let ghost t = self.threshold as nat;
        let ghost content0 = self.all_content();
        let mut j: usize = 0;
        while j < recs.len()
            invariant
                self.wf(),
                self.threshold == old(self).threshold,
                rv == recs.deep_view(),
                t == old(self).threshold as nat,
                j <= rv.len(),
                self.current@ == spec_append_all(cur0, arch0, rv.take(j as int), t).0,
                self.archive_plains() == spec_append_all(cur0, arch0, rv.take(j as int), t).1,
                self.all_content() == content0 + spec_lines(rv.take(j as int)),
            decreases rv.len() - j,
        {
            self.append(&recs[j]);
            proof {
                assert(rv.take(j + 1).drop_last() =~= rv.take(j as int));
                assert(rv.take(j + 1).last() == rv[j as int]);
                assert(self.all_content() =~= content0 + spec_lines(rv.take(j + 1)));
            }
            j = j + 1;
        }
        proof {
            assert(rv.take(rv.len() as int) =~= rv);
        }
    }
}

/// A non-empty record sequence serializes to at least one byte.
proof fn lemma_spec_lines_pos(recs: Seq<LogEntryV>)
    ensures
        recs.len() > 0 ==> spec_lines(recs).len() > 0,
{
}

/// A serialized line opens with the object's brace, so it is never
/// blank.
proof fn lemma_line_not_blank(e: LogEntryV)
    ensures
        spec_entry_line(e).len() > 0,
        spec_entry_line(e)[0] == 123u8,
        !is_blank(spec_entry_line(e)),
{
    reveal(crate::serialize::spec_entry_json);
    reveal_strlit("{\"chain\":\"");
    let first = crate::serialize::ascii_str("{\"chain\":\""@);
    assert(first.len() == 10);
    assert(first[0] == '{' as u8);
    assert(crate::serialize::spec_entry_json(e)[0] == first[0]);
    assert(spec_entry_line(e)[0] == crate::serialize::spec_entry_json(e)[0]);
    assert(!blank_byte(spec_entry_line(e)[0]));
}

/// The lines of a non-empty record sequence open with the first
/// record's brace, so that content is never blank.
proof fn lemma_spec_lines_not_blank(recs: Seq<LogEntryV>)
    requires
        recs.len() > 0,
    ensures
        spec_lines(recs)[0] == 123u8,
        !is_blank(spec_lines(recs)),
    decreases recs.len(),
{
    if recs.len() == 1 {
        lemma_line_not_blank(recs.last());
        assert(spec_lines(recs.drop_last()) =~= Seq::<u8>::empty());
        assert(spec_lines(recs)[0] == spec_entry_line(recs.last())[0]);
    } else {
        lemma_spec_lines_not_blank(recs.drop_last());
        lemma_spec_lines_pos(recs.drop_last());
        assert(spec_lines(recs)[0] == spec_lines(recs.drop_last())[0]);
    }
    assert(!blank_byte(spec_lines(recs)[0]));
}

/// While no single line exceeds the threshold and every prefix of
/// the batch still fits the threshold with its next line, appending
/// to an empty store never rotates: everything accumulates in the
/// current content and no archive is made.
pub proof fn lemma_fold_no_rotation(recs: Seq<LogEntryV>, threshold: nat)
    requires
        forall|i: int|
            0 <= i < recs.len() ==> spec_entry_line(#[trigger] recs[i]).len() <= threshold,
        forall|i: int|
            1 <= i < recs.len() ==> spec_lines(recs.take(i)).len() + spec_entry_line(
                #[trigger] recs[i],
            ).len() <= threshold,
    ensures
        spec_append_all(Seq::empty(), Seq::empty(), recs, threshold) == (
            spec_lines(recs),
            Seq::<Seq<u8>>::empty(),
        ),
        spec_lines(recs).len() <= threshold,
    decreases recs.len(),
{
    let n = recs.len() as int;
    if n > 0 {
        assert(forall|i: int| 0 <= i < n - 1 ==> recs.drop_last()[i] == recs[i]);
        assert(forall|i: int| 1 <= i < n - 1 ==> recs.drop_last().take(i) =~= recs.take(i));
        lemma_fold_no_rotation(recs.drop_last(), threshold);
        if n == 1 {
            assert(spec_lines(recs.drop_last()) =~= Seq::<u8>::empty());
            assert(is_blank(Seq::<u8>::empty()));
            assert(spec_lines(recs) =~= Seq::<u8>::empty() + spec_entry_line(recs.last()));
            assert(spec_lines(recs).len() <= threshold);
        } else {
            assert(recs.take(n - 1) =~= recs.drop_last());
            assert(spec_lines(recs.take(n - 1)).len() + spec_entry_line(recs[n - 1]).len()
                <= threshold);
            assert(spec_lines(recs) == spec_lines(recs.drop_last()) + spec_entry_line(
                recs[n - 1],
            ));
        }
        assert(spec_append_all(Seq::empty(), Seq::empty(), recs, threshold) == (
            spec_lines(recs),
            Seq::<Seq<u8>>::empty(),
        ));
    }
}

/// Append→rotate round trip. Starting from an empty store, append a
/// batch whose serialized size first crosses the threshold at record
/// `k` and crosses it only once. Exactly one archive results; its
/// content is exactly the lines of the records appended before the
/// crossing, and the current content afterwards is exactly the lines
/// of the records from the crossing on — no byte lost, none in both.
#[verifier::rlimit(100)]
#[verifier::spinoff_prover]
pub proof fn lemma_append_rotate_round_trip(recs: Seq<LogEntryV>, k: int, threshold: nat)
    requires
        1 <= k < recs.len(),
        forall|i: int|
            0 <= i < recs.len() ==> spec_entry_line(#[trigger] recs[i]).len() <= threshold,
        forall|i: int|
            1 <= i < k ==> spec_lines(recs.take(i)).len() + spec_entry_line(
                #[trigger] recs[i],
            ).len() <= threshold,
        spec_lines(recs.take(k)).len() + spec_entry_line(recs[k]).len() > threshold,
        forall|i: int|
            k < i < recs.len() ==> spec_lines(recs.subrange(k, i)).len() + spec_entry_line(
                #[trigger] recs[i],
            ).len() <= threshold,
    ensures
        spec_append_all(Seq::empty(), Seq::empty(), recs, threshold) == (
            spec_lines(recs.skip(k)),
            seq![spec_lines(recs.take(k))],
        ),
    decreases recs.len(),
{
    let n = recs.len() as int;
    let d = recs.drop_last();
    let ghost empty_c = Seq::<u8>::empty();
    let ghost empty_a = Seq::<Seq<u8>>::empty();
    if k == n - 1 {
        assert(d =~= recs.take(k));
        assert forall|i: int|
            0 <= i < d.len() implies spec_entry_line(#[trigger] d[i]).len() <= threshold by {
            assert(d[i] == recs[i]);
        }
        assert forall|i: int|
            1 <= i < k implies spec_lines(d.take(i)).len() + spec_entry_line(
            #[trigger] d[i],
        ).len() <= threshold by {
            assert(d.take(i) =~= recs.take(i));
            assert(d[i] == recs[i]);
        }
        lemma_fold_no_rotation(d, threshold);
        lemma_spec_lines_not_blank(recs.take(k));
        let prev = spec_append_all(empty_c, empty_a, d, threshold);
        assert(prev.0 == spec_lines(recs.take(k)));
        assert(!is_blank(prev.0) && prev.0.len() + spec_entry_line(recs[k]).len() > threshold);
        assert(spec_entry_line(recs[k]).len() <= threshold);
        let one = spec_append_one(prev.0, prev.1, spec_entry_line(recs.last()), threshold);
        assert(one.0 == spec_entry_line(recs[k]));
        assert(one.1 =~= seq![spec_lines(recs.take(k))]);
        assert(recs.skip(k).drop_last() =~= Seq::<LogEntryV>::empty());
        assert(recs.skip(k).last() == recs[k]);
        assert(spec_lines(recs.skip(k).drop_last()) == spec_lines(Seq::<LogEntryV>::empty()));
        assert(spec_lines(Seq::<LogEntryV>::empty()) == Seq::<u8>::empty());
        assert(recs.skip(k).len() == 1);
        assert(spec_lines(recs.skip(k)) == Seq::<u8>::empty() + spec_entry_line(recs[k]));
        assert(Seq::<u8>::empty() + spec_entry_line(recs[k]) =~= spec_entry_line(recs[k]));
    } else {
        assert forall|i: int|
            0 <= i < d.len() implies spec_entry_line(#[trigger] d[i]).len() <= threshold by {
            assert(d[i] == recs[i]);
        }
        assert forall|i: int|
            1 <= i < k implies spec_lines(d.take(i)).len() + spec_entry_line(
            #[trigger] d[i],
        ).len() <= threshold by {
            assert(d.take(i) =~= recs.take(i));
            assert(d[i] == recs[i]);
        }
        assert(spec_lines(d.take(k)).len() + spec_entry_line(d[k]).len() > threshold) by {
            assert(d.take(k) =~= recs.take(k));
            assert(d[k] == recs[k]);
        }
        assert forall|i: int|
            k < i < d.len() implies spec_lines(d.subrange(k, i)).len() + spec_entry_line(
            #[trigger] d[i],
        ).len() <= threshold by {
            assert(d.subrange(k, i) =~= recs.subrange(k, i));
            assert(d[i] == recs[i]);
        }
        lemma_append_rotate_round_trip(d, k, threshold);
        let prev = spec_append_all(empty_c, empty_a, d, threshold);
        assert(d.take(k) =~= recs.take(k));
        assert(prev.0 == spec_lines(d.skip(k)));
        assert(prev.1 == seq![spec_lines(recs.take(k))]);
        assert(d.skip(k) =~= recs.subrange(k, n - 1));
        assert(spec_lines(recs.subrange(k, n - 1)).len() + spec_entry_line(recs[n - 1]).len()
            <= threshold);
        let one = spec_append_one(prev.0, prev.1, spec_entry_line(recs.last()), threshold);
        assert((prev.0 + spec_entry_line(recs.last())).len() <= threshold);
        assert(one.0 == spec_lines(recs.subrange(k, n - 1)) + spec_entry_line(recs[n - 1]));
        assert(one.1 == seq![spec_lines(recs.take(k))]);
        assert(recs.skip(k).drop_last() =~= recs.subrange(k, n - 1));
        assert(recs.skip(k).last() == recs[n - 1]);
        assert(spec_lines(recs.skip(k)) == spec_lines(recs.subrange(k, n - 1))
            + spec_entry_line(recs[n - 1]));
    }
}

} // verus!
