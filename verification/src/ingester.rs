//! The batching rule of the ingestion pipeline: which lines enter the
//! buffer, and when a full buffer must be flushed into a new columnar
//! file. Reading the input and writing the files sit with the caller.

use vstd::prelude::*;

use crate::lexer::is_whitespace_char;

verus! {

/// The model of an [`Ingester`]: its table, its data directory, and the
/// number of buffered lines that triggers a flush.
pub struct IngesterModel {
    pub table_name: Seq<char>,
    pub data_dir_path: Seq<char>,
    pub batch_size_line_count: nat,
}

/// Batches newline-delimited records for one table under one data
/// directory.
#[derive(Debug)]
pub struct Ingester {
    table_name: String,
    data_dir_path: String,
    batch_size_line_count: usize,
}

impl View for Ingester {
    type V = IngesterModel;

    closed spec fn view(&self) -> IngesterModel {
        IngesterModel {
            table_name: self.table_name@,
            data_dir_path: self.data_dir_path@,
            batch_size_line_count: self.batch_size_line_count as nat,
        }
    }
}

/// A line of nothing but whitespace, the tokenizer's set.
pub open spec fn spec_is_blank(s: Seq<char>) -> bool {
    forall|i: int| 0 <= i < s.len() ==> is_whitespace_char(s[i])
}

impl Ingester {
    pub fn new(table_name: &str, data_dir_path: &str) -> (r: Self)
        ensures
            r@.table_name == table_name@,
            r@.data_dir_path == data_dir_path@,
            r@.batch_size_line_count == 50000,
    {
        Self {
            table_name: String::from_str(table_name),
            data_dir_path: String::from_str(data_dir_path),
            batch_size_line_count: 50000,
        }
    }

    /// The table the ingested records belong to.
    pub fn table_name(&self) -> (r: &str)
        ensures
            r@ == self@.table_name,
    {
        self.table_name.as_str()
    }

    /// The directory the table's files go under.
    pub fn data_dir_path(&self) -> (r: &str)
        ensures
            r@ == self@.data_dir_path,
    {
        self.data_dir_path.as_str()
    }

    /// How many buffered lines trigger a flush.
    pub fn batch_size_line_count(&self) -> (r: usize)
        ensures
            r == self@.batch_size_line_count,
    {
        self.batch_size_line_count
    }

    /// One step of the ingest loop: a blank line is dropped, any other
    /// line is buffered; the result says whether the buffer has reached
    /// the batch size and must be flushed.
    pub fn buffer_line(&self, buffer: &mut Vec<String>, line: String) -> (flush: bool)
        ensures
            final(buffer)@ == if spec_is_blank(line@) {
                old(buffer)@
            } else {
                old(buffer)@.push(line)
            },
            flush == (final(buffer)@.len() >= self@.batch_size_line_count),
    {
        if !is_blank(line.as_str()) {
            buffer.push(line);
        }
        buffer.len() >= self.batch_size_line_count
    }
}

fn is_blank(s: &str) -> (r: bool)
    ensures
        r == spec_is_blank(s@),
{
    let n = s.unicode_len();
    let mut k: usize = 0;
    while k < n
        invariant
            n == s@.len(),
            k <= n,
            forall|i: int| 0 <= i < k ==> is_whitespace_char(s@[i]),
        decreases n - k,
    {
        let c = s.get_char(k);
        if !(c == ' ' || c == '\t' || c == '\u{c}' || c == '\n') {
            return false;
        }
        k = k + 1;
    }
    true
}

} // verus!
