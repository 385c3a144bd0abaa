//! Datasets: the records of one source, handed out in bounded batches.

use crate::decoder::{decode_line, decoded};
use crate::error::SourceError;
use crate::file_type::FileType;
use crate::lines::{
    copy_range, find_line, first_line_span, lemma_raw_lines, line_text, raw_lines, text_of,
};
use crate::record::{JsonValue, Record};
use vstd::prelude::*;

verus! {

/// The record that a raw line holds in a source of the given format: its
/// bytes are read as text, and the text is decoded.
pub open spec fn line_record(line: Seq<u8>, file_type: FileType, header: Option<Seq<char>>) -> Result<
    JsonValue,
    SourceError,
> {
    match line_text(line) {
        Some(text) => decoded(text, file_type, header),
        None => Err(SourceError::InvalidText),
    }
}

/// How many lines one pull reads where every line decodes: as many as the
/// batch may hold, or all that are left.
pub open spec fn reach(pending: int, batch_size: int) -> int {
    if batch_size <= pending {
        batch_size
    } else {
        pending
    }
}

/// Whether each of the first `count` lines decodes.
pub open spec fn readable(
    lines: Seq<Seq<u8>>,
    file_type: FileType,
    header: Option<Seq<char>>,
    count: int,
) -> bool {
    forall|j: int| 0 <= j < count ==> (#[trigger] line_record(lines[j], file_type, header)) is Ok
}

/// A single-consumer producer of the records of one source. It is open while
/// lines are pending and exhausted from then on.
#[derive(Debug)]
pub struct Dataset {
    content: Vec<u8>,
    position: usize,
    file_type: FileType,
    csv_header: Option<String>,
}

impl Dataset {
    #[verifier::type_invariant]
    spec fn well_formed(self) -> bool {
        self.position <= self.content.len()
    }

    /// The raw lines that were not read yet.
    pub closed spec fn pending(self) -> Seq<Seq<u8>> {
        raw_lines(self.content@.skip(self.position as int))
    }

    /// The format of the source.
    pub closed spec fn file_type(self) -> FileType {
        self.file_type
    }

    /// The header under which the lines of a CSV source are decoded.
    pub closed spec fn header(self) -> Option<Seq<char>> {
        match self.csv_header {
            Some(header) => Some(header@),
            None => None,
        }
    }

    /// Whether every line was read.
    pub open spec fn exhausted(self) -> bool {
        self.pending().len() == 0
    }

    /// Opens a dataset on the content of a resource. For a CSV source the
    /// first line is taken as the header before any record is handed out.
    pub fn new(content: Vec<u8>, file_type: FileType) -> (opened: Result<Dataset, SourceError>)
        ensures
            match opened {
                Ok(dataset) => {
                    &&& dataset.file_type() == file_type
                    &&& match file_type {
                        FileType::JSON => dataset.header() is None && dataset.pending()
                            == raw_lines(content@),
                        FileType::CSV => raw_lines(content@).len() > 0 && dataset.header()
                            == line_text(raw_lines(content@)[0]) && dataset.header() is Some
                            && dataset.pending() == raw_lines(content@).skip(1),
                        FileType::PARQUET => false,
                    }
                },
                Err(error) => match file_type {
                    FileType::JSON => false,
                    FileType::CSV => if raw_lines(content@).len() == 0 {
                        error == SourceError::MissingHeader
                    } else {
                        error == SourceError::InvalidText && line_text(raw_lines(content@)[0])
                            is None
                    },
                    FileType::PARQUET => error == SourceError::UnsupportedFormat,
                },
            },
    {
        match file_type {
            FileType::JSON => {
                assert(content@.skip(0) =~= content@);
                Ok(Dataset { content, position: 0, file_type, csv_header: None })
            },
            FileType::CSV => {
                proof {
                    lemma_raw_lines(content@);
                    assert(content@.skip(0) =~= content@);
                }
                if content.len() == 0 {
                    return Err(SourceError::MissingHeader);
                }
                let span = find_line(&content, 0);
                match text_of(copy_range(&content, 0, span.end)) {
                    Some(header) => Ok(
                        Dataset { content, position: span.next, file_type, csv_header: Some(header) },
                    ),
                    None => Err(SourceError::InvalidText),
                }
            },
            FileType::PARQUET => Err(SourceError::UnsupportedFormat),
        }
    }

    /// Reads the next line and decodes it. Once the lines are exhausted, this
    /// and every later call returns no record. A line that cannot be decoded
    /// is consumed, and its error is returned.
    pub fn next_line(&mut self) -> (next: Result<Option<Record>, SourceError>)
        ensures
            final(self).file_type() == old(self).file_type(),
            final(self).header() == old(self).header(),
            old(self).exhausted() ==> (next matches Ok(None)) && final(self).pending() == old(
                self,
            ).pending(),
            !old(self).exhausted() ==> {
                &&& final(self).pending() == old(self).pending().skip(1)
                &&& match next {
                    Ok(Some(record)) => line_record(
                        old(self).pending()[0],
                        old(self).file_type(),
                        old(self).header(),
                    ) == Ok::<JsonValue, SourceError>(record@),
                    Ok(None) => false,
                    Err(error) => line_record(
                        old(self).pending()[0],
                        old(self).file_type(),
                        old(self).header(),
                    ) == Err::<JsonValue, SourceError>(error),
                }
            },
    {
        proof {
            use_type_invariant(&*self);
            lemma_raw_lines(self.content@.skip(self.position as int));
        }
        if self.position >= self.content.len() {
            return Ok(None);
        }
        let span = find_line(&self.content, self.position);
        let line = copy_range(&self.content, self.position, span.end);
        proof {
            assert(self.content@.skip(self.position as int).skip(
                first_line_span(self.content@.skip(self.position as int)),
            ) =~= self.content@.skip(span.next as int));
        }
        self.position = span.next;
        match text_of(line) {
            None => Err(SourceError::InvalidText),
            Some(text) => {
                let header = match &self.csv_header {
                    Some(header) => Some(header.as_str()),
                    None => None,
                };
                match decode_line(text.as_str(), self.file_type, header) {
                    Ok(record) => Ok(Some(record)),
                    Err(error) => Err(error),
                }
            },
        }
    }

    /// What one pull of up to `batch_size` records does to a dataset, which
    /// is `after` once the pull has returned `next`. The format and the header
    /// stay. The pull succeeds exactly where each line in its reach decodes.
    /// It then consumes those lines and returns their records, in order, as a
    /// batch; where no line is in its reach it returns no batch and leaves the
    /// dataset as it was. Else it returns the error of the first line that
    /// does not decode and consumes the lines up to that one.
    pub open spec fn pulled(
        self,
        after: Dataset,
        batch_size: u32,
        next: Result<Option<Vec<Record>>, SourceError>,
    ) -> bool {
        let lines = self.pending();
        let count = reach(lines.len() as int, batch_size as int);
        &&& after.file_type() == self.file_type()
        &&& after.header() == self.header()
        &&& next is Ok <==> readable(lines, self.file_type(), self.header(), count)
        &&& match next {
            Ok(Some(batch)) => {
                &&& batch.len() > 0
                &&& batch.len() == count
                &&& forall|j: int|
                    0 <= j < batch.len() ==> (#[trigger] line_record(
                        lines[j],
                        self.file_type(),
                        self.header(),
                    )) == Ok::<JsonValue, SourceError>(batch[j]@)
                &&& after.pending() == lines.skip(count)
            },
            Ok(None) => count == 0 && after.pending() == lines,
            Err(error) => exists|j: int|
                {
                    &&& 0 <= j < count
                    &&& readable(lines, self.file_type(), self.header(), j)
                    &&& (#[trigger] line_record(lines[j], self.file_type(), self.header()))
                        == Err::<JsonValue, SourceError>(error)
                    &&& after.pending() == lines.skip(j + 1)
                },
        }
    }

    /// Pulls up to `batch_size` records: it reads lines until the batch is
    /// full or the lines are exhausted. A batch that is returned is never
    /// empty: where no line could be read, no batch is returned. The first
    /// line that cannot be decoded ends the pull with its error; the lines up
    /// to it are consumed.
    pub fn next_batch(&mut self, batch_size: u32) -> (next: Result<Option<Vec<Record>>, SourceError>)
        ensures
            old(self).pulled(*final(self), batch_size, next),
    {
        let ghost lines = self.pending();
        let ghost file_type = self.file_type();
        let ghost header = self.header();
        let mut batch: Vec<Record> = Vec::new();
        let mut pulled: u32 = 0;
        let mut more = true;
        assert(lines.skip(0) =~= lines);
        while pulled < batch_size && more
            invariant
                pulled <= batch_size,
                batch.len() == pulled,
                pulled <= lines.len(),
                lines == old(self).pending(),
                file_type == old(self).file_type(),
                header == old(self).header(),
                self.file_type() == file_type,
                self.header() == header,
                self.pending() == lines.skip(pulled as int),
                !more ==> pulled == lines.len(),
                forall|j: int|
                    0 <= j < pulled ==> (#[trigger] line_record(lines[j], file_type, header))
                        == Ok::<JsonValue, SourceError>(batch[j]@),
            decreases (batch_size - pulled) + (if more { 1int } else { 0int }),
        {
            let ghost before = self.pending();
            match self.next_line() {
                Err(error) => {
                    proof {
                        assert(before[0] == lines[pulled as int]);
                        assert(before.skip(1) =~= lines.skip(pulled + 1));
                        assert(readable(lines, file_type, header, pulled as int));
                    }
                    return Err(error);
                },
                Ok(None) => {
                    more = false;
                },
                Ok(Some(record)) => {
                    proof {
                        assert(before[0] == lines[pulled as int]);
                        assert(before.skip(1) =~= lines.skip(pulled + 1));
                    }
                    batch.push(record);
                    pulled += 1;
                },
            }
        }
        proof {
            assert(readable(lines, file_type, header, pulled as int));
        }
        if batch.is_empty() {
            Ok(None)
        } else {
            Ok(Some(batch))
        }
    }
}

/// The lines that are pending after a number of pulls of `batch_size` records
/// each, where every line decodes.
pub open spec fn pending_after(lines: Seq<Seq<u8>>, batch_size: int, pulls: nat) -> Seq<Seq<u8>>
    decreases pulls,
{
    if pulls == 0 {
        lines
    } else {
        let before = pending_after(lines, batch_size, (pulls - 1) as nat);
        before.skip(reach(before.len() as int, batch_size))
    }
}

/// The number of batches that hold `records` records, `batch_size` in each
/// but the last: the quotient, rounded up.
pub open spec fn batch_count(records: int, batch_size: int) -> int {
    (records + batch_size - 1) / batch_size
}

/// The number of batches, by the remainder of the division.
proof fn lemma_batch_count(records: int, batch_size: int)
    requires
        0 <= records,
        0 < batch_size,
    ensures
        0 <= records % batch_size < batch_size,
        records == batch_size * (records / batch_size) + records % batch_size,
        0 <= records / batch_size,
        records % batch_size == 0 ==> batch_count(records, batch_size) == records / batch_size,
        records % batch_size != 0 ==> batch_count(records, batch_size) == records / batch_size
            + 1,
{
    let q = records / batch_size;
    let r = records % batch_size;
    vstd::arithmetic::div_mod::lemma_fundamental_div_mod(records, batch_size);
    vstd::arithmetic::div_mod::lemma_mod_pos_bound(records, batch_size);
    assert(0 <= q) by (nonlinear_arith)
        requires
            records == batch_size * q + r,
            0 <= records,
            0 <= r < batch_size,
            0 < batch_size,
    ;
    if r == 0 {
        vstd::arithmetic::div_mod::lemma_div_multiples_vanish_fancy(
            q,
            batch_size - 1,
            batch_size,
        );
        assert(records + batch_size - 1 == batch_size * q + (batch_size - 1));
    } else {
        vstd::arithmetic::div_mod::lemma_div_multiples_vanish_fancy(q + 1, r - 1, batch_size);
        assert(records + batch_size - 1 == batch_size * (q + 1) + (r - 1)) by (nonlinear_arith)
            requires
                records == batch_size * q + r,
        ;
    }
}

/// A source of `m` lines that all decode is handed out, by pulls of `n`
/// records each, in the quotient of `m` by `n`, rounded up, batches. Pull
/// number `pull`, counted from zero, starts at line `pull * n`. Every batch
/// but the last holds `n` records; the last holds the remainder of `m` by
/// `n`, or `n` where that is zero. Every pull after the last batch finds no
/// line pending and reads none.
pub proof fn lemma_batches_of_a_source(lines: Seq<Seq<u8>>, batch_size: int, pull: nat)
    requires
        0 < batch_size,
    ensures
        ({
            let m = lines.len() as int;
            let n = batch_size;
            let before = pending_after(lines, n, pull);
            let size = reach(before.len() as int, n);
            &&& pull * n <= m ==> before == lines.skip(pull * n)
            &&& pull * n > m ==> before.len() == 0
            &&& pull < batch_count(m, n) - 1 ==> size == n
            &&& pull == batch_count(m, n) - 1 ==> size == (if m % n == 0 {
                n
            } else {
                m % n
            })
            &&& pull >= batch_count(m, n) ==> before.len() == 0 && size == 0
        }),
    decreases pull,
{
    let m = lines.len() as int;
    let n = batch_size;
    let count = batch_count(m, n);
    let q = m / n;
    let r = m % n;
    lemma_batch_count(m, n);
    let before = pending_after(lines, n, pull);
    if pull == 0 {
        assert(lines.skip(0) =~= lines);
    } else {
        let earlier = pending_after(lines, n, (pull - 1) as nat);
        lemma_batches_of_a_source(lines, n, (pull - 1) as nat);
        assert(pull * n == (pull - 1) * n + n) by (nonlinear_arith);
        if (pull - 1) * n <= m {
            if pull * n <= m {
                assert(lines.skip((pull - 1) * n).skip(n) =~= lines.skip(pull * n));
            }
        }
    }
    if pull < count - 1 {
        assert((pull + 1) * n <= (count - 1) * n) by (nonlinear_arith)
            requires
                pull + 1 <= count - 1,
                0 < n,
        ;
        assert((count - 1) * n <= m) by (nonlinear_arith)
            requires
                m == n * q + r,
                0 <= r,
                count - 1 <= q,
                0 < n,
        ;
        assert((pull + 1) * n == pull * n + n) by (nonlinear_arith);
    } else if pull == count - 1 {
        assert(pull * n == m - (if r == 0 {
            n
        } else {
            r
        })) by (nonlinear_arith)
            requires
                m == n * q + r,
                pull == (if r == 0 {
                    q - 1
                } else {
                    q
                }),
        ;
    } else {
        assert(pull * n >= m) by (nonlinear_arith)
            requires
                m == n * q + r,
                0 <= r < n,
                pull >= q + (if r == 0 {
                    0int
                } else {
                    1int
                }),
                0 < n,
        ;
        if pull * n == m {
            assert(lines.skip(m).len() == 0);
        }
    }
}

/// The pulls of a run leave the format and the header alone and, where every
/// line of the source decodes, leave pending what [`pending_after`] says.
proof fn lemma_state_of_a_run(
    states: Seq<Dataset>,
    results: Seq<Result<Option<Vec<Record>>, SourceError>>,
    batch_size: u32,
    pull: int,
)
    requires
        0 < batch_size,
        states.len() == results.len() + 1,
        forall|i: int|
            0 <= i < results.len() ==> (#[trigger] states[i]).pulled(
                states[i + 1],
                batch_size,
                results[i],
            ),
        readable(
            states[0].pending(),
            states[0].file_type(),
            states[0].header(),
            states[0].pending().len() as int,
        ),
        0 <= pull <= results.len(),
    ensures
        states[pull].file_type() == states[0].file_type(),
        states[pull].header() == states[0].header(),
        states[pull].pending() == pending_after(
            states[0].pending(),
            batch_size as int,
            pull as nat,
        ),
        readable(
            states[pull].pending(),
            states[0].file_type(),
            states[0].header(),
            states[pull].pending().len() as int,
        ),
    decreases pull,
{
    let lines = states[0].pending();
    let file_type = states[0].file_type();
    let header = states[0].header();
    if pull > 0 {
        lemma_state_of_a_run(states, results, batch_size, pull - 1);
        let before = states[pull - 1];
        assert(before.pulled(states[pull], batch_size, results[pull - 1]));
        let count = reach(before.pending().len() as int, batch_size as int);
        assert(readable(before.pending(), file_type, header, count));
        assert(before.pending().skip(0) =~= before.pending());
        assert(states[pull].pending() == before.pending().skip(count));
        assert forall|j: int| 0 <= j < states[pull].pending().len() implies (#[trigger] line_record(
            states[pull].pending()[j],
            file_type,
            header,
        )) is Ok by {
            assert(states[pull].pending()[j] == before.pending()[count + j]);
            assert(line_record(before.pending()[count + j], file_type, header) is Ok);
        }
    }
}

/// Whether a pull returned a batch of `size` records, which are those of the
/// lines from `start` on, in their order.
pub open spec fn is_batch_of(
    result: Result<Option<Vec<Record>>, SourceError>,
    lines: Seq<Seq<u8>>,
    file_type: FileType,
    header: Option<Seq<char>>,
    start: int,
    size: int,
) -> bool {
    match result {
        Ok(Some(batch)) => {
            &&& batch.len() == size
            &&& forall|j: int|
                0 <= j < size ==> line_record(lines[start + j], file_type, header) == Ok::<
                    JsonValue,
                    SourceError,
                >((#[trigger] batch[j])@)
        },
        _ => false,
    }
}

/// What a run of pulls produces. Let a dataset hold `m` lines that all
/// decode, and let it be pulled again and again with the batch size `n`, which
/// is not zero. Then the quotient of `m` by `n`, rounded up, pulls return a
/// batch. Each of these but the last holds `n` records; the last holds the
/// remainder of `m` by `n`, or `n` where that is zero. Each batch holds the
/// records of the next lines, in their order. Every later pull returns no
/// batch, and never is a batch empty.
pub proof fn lemma_batches_of_a_run(
    states: Seq<Dataset>,
    results: Seq<Result<Option<Vec<Record>>, SourceError>>,
    batch_size: u32,
)
    requires
        0 < batch_size,
        states.len() == results.len() + 1,
        forall|i: int|
            0 <= i < results.len() ==> (#[trigger] states[i]).pulled(
                states[i + 1],
                batch_size,
                results[i],
            ),
        readable(
            states[0].pending(),
            states[0].file_type(),
            states[0].header(),
            states[0].pending().len() as int,
        ),
    ensures
        forall|i: int|
            0 <= i < results.len() ==> {
                let m = states[0].pending().len() as int;
                let n = batch_size as int;
                &&& i < batch_count(m, n) - 1 ==> is_batch_of(
                    #[trigger] results[i],
                    states[0].pending(),
                    states[0].file_type(),
                    states[0].header(),
                    i * n,
                    n,
                )
                &&& i == batch_count(m, n) - 1 ==> is_batch_of(
                    results[i],
                    states[0].pending(),
                    states[0].file_type(),
                    states[0].header(),
                    i * n,
                    if m % n == 0 {
                        n
                    } else {
                        m % n
                    },
                )
                &&& i >= batch_count(m, n) ==> results[i] == Ok::<
                    Option<Vec<Record>>,
                    SourceError,
                >(None)
            },
{
    let lines = states[0].pending();
    let file_type = states[0].file_type();
    let header = states[0].header();
    let m = lines.len() as int;
    let n = batch_size as int;
    assert forall|i: int| 0 <= i < results.len() implies {
        &&& i < batch_count(m, n) - 1 ==> is_batch_of(
            #[trigger] results[i],
            lines,
            file_type,
            header,
            i * n,
            n,
        )
        &&& i == batch_count(m, n) - 1 ==> is_batch_of(
            results[i],
            lines,
            file_type,
            header,
            i * n,
            if m % n == 0 {
                n
            } else {
                m % n
            },
        )
        &&& i >= batch_count(m, n) ==> results[i] == Ok::<Option<Vec<Record>>, SourceError>(None)
    } by {
        lemma_state_of_a_run(states, results, batch_size, i);
        lemma_batches_of_a_source(lines, n, i as nat);
        let before = states[i];
        assert(before.pulled(states[i + 1], batch_size, results[i]));
        let count = reach(before.pending().len() as int, n);
        assert(readable(before.pending(), before.file_type(), before.header(), count));
        match results[i] {
            Ok(Some(batch)) => {
                assert(i * n <= m) by {
                    if i * n > m {
                        assert(before.pending().len() == 0);
                    }
                }
                assert forall|j: int| 0 <= j < batch.len() implies line_record(
                    lines[i * n + j],
                    file_type,
                    header,
                ) == Ok::<JsonValue, SourceError>((#[trigger] batch[j])@) by {
                    assert(before.pending()[j] == lines[i * n + j]);
                    assert(line_record(before.pending()[j], before.file_type(), before.header())
                        == Ok::<JsonValue, SourceError>(batch[j]@));
                }
            },
            _ => {},
        }
    }
}

} // verus!
