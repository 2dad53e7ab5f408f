use vstd::prelude::*;

use std::io::{BufRead, BufReader, Cursor, Read, Seek, SeekFrom};

use vstd::utf8::encode_utf8;

use crate::error::IterManError;
use crate::list::ListLike;

verus! {

#[verifier::external_type_specification]
#[verifier::external_body]
#[verifier::reject_recursive_types(R)]
pub struct ExBufReader<R: ?Sized>(BufReader<R>);

#[verifier::external_type_specification]
#[verifier::external_body]
#[verifier::reject_recursive_types(T)]
pub struct ExCursor<T>(Cursor<T>);

/// Whether `c` has the Unicode `White_Space` property, the test of
/// `char::is_whitespace`.
pub open spec fn is_white_space(c: char) -> bool {
    let u = c as u32;
    ||| 0x09 <= u <= 0x0d
    ||| u == 0x20
    ||| u == 0x85
    ||| u == 0xa0
    ||| u == 0x1680
    ||| 0x2000 <= u <= 0x200a
    ||| u == 0x2028
    ||| u == 0x2029
    ||| u == 0x202f
    ||| u == 0x205f
    ||| u == 0x3000
}

/// `s` without its leading whitespace.
pub open spec fn trim_start(s: Seq<char>) -> Seq<char>
    decreases s.len(),
{
    if s.len() > 0 && is_white_space(s[0]) {
        trim_start(s.drop_first())
    } else {
        s
    }
}

/// `s` without its trailing whitespace.
pub open spec fn trim_end(s: Seq<char>) -> Seq<char>
    decreases s.len(),
{
    if s.len() > 0 && is_white_space(s.last()) {
        trim_end(s.drop_last())
    } else {
        s
    }
}

/// What a line read from the stream looks like once leading and trailing
/// whitespace is removed.
pub open spec fn trimmed(s: Seq<char>) -> Seq<char> {
    trim_end(trim_start(s))
}

/// What a read of the stream leads to.
pub enum ReadStep {
    /// A line, already trimmed, to hand out.
    Line(String),
    /// The stream ended and should be rewound to its start.
    Rewind,
    /// Nothing more to hand out.
    End,
}

/// Where to position the stream.
enum SeekTarget {
    Start(u64),
    Current,
    End,
}

/// Relies on `BufRead::read_line` of `BufReader`: on success the fresh
/// string holds the bytes read, up to and including a newline, and the count
/// returned is their number, zero exactly at the end of the stream. `None`
/// stands for an I/O error.
#[verifier::external_body]
fn read_line_from<R: Read>(reader: &mut BufReader<R>) -> (r: Option<(usize, String)>)
    ensures
        r matches Some((n, s)) ==> encode_utf8(s@).len() == n && (n == 0 <==> s@.len() == 0),
{
    let mut s = String::new();
    match reader.read_line(&mut s) {
        Ok(n) => Some((n, s)),
        Err(_) => None,
    }
}

/// Relies on `Seek::seek` of `BufReader`: on success it returns the new
/// position counted from the start, which for `SeekFrom::Start(p)` is `p`.
#[verifier::external_body]
fn seek_reader<R: Seek>(reader: &mut BufReader<R>, target: SeekTarget) -> (r: Option<u64>)
    ensures
        target matches SeekTarget::Start(p) ==> (r matches Some(q) ==> q == p),
{
    let from = match target {
        SeekTarget::Start(p) => SeekFrom::Start(p),
        SeekTarget::Current => SeekFrom::Current(0),
        SeekTarget::End => SeekFrom::End(0),
    };
    reader.seek(from).ok()
}

/// Relies on `str::trim`: the characters between the first and the last one
/// that is not `White_Space`.
#[verifier::external_body]
fn trim_line(s: &String) -> (r: String)
    ensures
        r@ == trimmed(s@),
{
    s.trim().to_string()
}

/// `a + b`, wrapping around at the width of `usize`.
pub open spec fn wrapped_add(a: usize, b: usize) -> usize {
    if a + b <= usize::MAX {
        (a + b) as usize
    } else {
        (a + b - usize::MAX - 1) as usize
    }
}

fn add_wrapping(a: usize, b: usize) -> (r: usize)
    ensures
        r == wrapped_add(a, b),
{
    if a <= usize::MAX - b {
        a + b
    } else {
        b - (usize::MAX - a) - 1
    }
}

/// Abstract state of a [`BufferList`]: the mode and the two counters. The
/// content of the stream is not part of it.
pub struct BufferListView {
    pub round_robin: bool,
    pub line_index: usize,
    pub bytes_offset: usize,
}

impl BufferListView {
    /// The state after a line of `bytes_read` bytes was taken.
    pub open spec fn advanced(self, bytes_read: usize) -> Self {
        BufferListView {
            line_index: wrapped_add(self.line_index, 1),
            bytes_offset: wrapped_add(self.bytes_offset, bytes_read),
            ..self
        }
    }

    /// The state with both counters at zero.
    pub open spec fn restarted(self) -> Self {
        BufferListView { line_index: 0, bytes_offset: 0, ..self }
    }
}

/// `after` follows `before` by one line of `n` bytes, taken either where
/// the stream stood or, in round-robin mode, after a rewind to its start.
pub open spec fn took_line(before: BufferListView, after: BufferListView, n: usize) -> bool {
    &&& n > 0
    &&& after == before.advanced(n) || (before.round_robin && after == before.restarted().advanced(n))
}

/// The outcome of a seek to `bytes_offset` on a stream whose length was
/// measured as `stream_len` (`None` when it could not be measured): the
/// offset to move the stream to, or the error to report.
pub open spec fn seek_bounds_spec(line_index: usize, bytes_offset: usize, stream_len: Option<u64>) -> Result<u64, IterManError> {
    match stream_len {
        None => Err(IterManError::StreamOutOfBounds { line_index, bytes_offset, max_len: 0 }),
        Some(len) => if len < bytes_offset {
            Err(IterManError::StreamOutOfBounds { line_index, bytes_offset, max_len: len as usize })
        } else {
            Ok(bytes_offset as u64)
        },
    }
}

/// Checks a seek target against the measured length of the stream.
pub fn seek_bounds(line_index: usize, bytes_offset: usize, stream_len: Option<u64>) -> (r: Result<u64, IterManError>)
    ensures
        r == seek_bounds_spec(line_index, bytes_offset, stream_len),
{
    match stream_len {
        None => Err(IterManError::StreamOutOfBounds { line_index, bytes_offset, max_len: 0 }),
        Some(len) => if len < bytes_offset as u64 {
            Err(IterManError::StreamOutOfBounds { line_index, bytes_offset, max_len: len as usize })
        } else {
            Ok(bytes_offset as u64)
        },
    }
}

/// The outcome of a seek once the move to `bytes_offset` was tried on a
/// stream measured at `stream_len` bytes: the new offset if the move
/// succeeded, else the error carrying the measured length.
pub fn after_move(line_index: usize, bytes_offset: usize, stream_len: u64, moved: bool) -> (r: Result<usize, IterManError>)
    ensures
        r == (if moved {
            Ok::<usize, IterManError>(bytes_offset)
        } else {
            Err(IterManError::StreamOutOfBounds { line_index, bytes_offset, max_len: stream_len as usize })
        }),
{
    if moved {
        Ok(bytes_offset)
    } else {
        Err(IterManError::StreamOutOfBounds { line_index, bytes_offset, max_len: stream_len as usize })
    }
}

/// A cursor over the lines of a seekable stream, handing out each line
/// without surrounding whitespace, optionally starting over at the end.
#[verifier::reject_recursive_types(T)]
pub struct BufferList<T> {
    buf_reader: BufReader<T>,
    round_robin: bool,
    line_index: usize,
    bytes_offset: usize,
}

impl<T> View for BufferList<T> {
    type V = BufferListView;

    closed spec fn view(&self) -> BufferListView {
        BufferListView { round_robin: self.round_robin, line_index: self.line_index, bytes_offset: self.bytes_offset }
    }
}

impl<T> BufferList<T> {
    /// The reader that the list reads from.
    pub closed spec fn reader(&self) -> BufReader<T> {
        self.buf_reader
    }
}

impl<T: Read + Seek> BufferList<T> {
    /// A list over the lines of `buf_reader` that ends at the end of the
    /// stream.
    pub fn new(buf_reader: BufReader<T>) -> (r: Self)
        ensures
            r@ == (BufferListView { round_robin: false, line_index: 0, bytes_offset: 0 }),
            r.reader() == buf_reader,
    {
        BufferList { buf_reader, round_robin: false, line_index: 0, bytes_offset: 0 }
    }

    /// A list over the lines of `buf_reader` that rewinds the stream at its
    /// end.
    pub fn new_round_robin(buf_reader: BufReader<T>) -> (r: Self)
        ensures
            r@ == (BufferListView { round_robin: true, line_index: 0, bytes_offset: 0 }),
            r.reader() == buf_reader,
    {
        BufferList { buf_reader, round_robin: true, line_index: 0, bytes_offset: 0 }
    }

    /// Seeks on a best-effort basis: a seek that fails leaves the list where
    /// it was.
    pub fn with_seek_to(self, line_index: usize, bytes_offset: usize) -> (r: Self)
        ensures
            r@ == self@ || r@ == (BufferListView { line_index, bytes_offset, ..self@ }),
    {
        let mut list = self;
        let _ = list.seek(line_index, bytes_offset);
        list
    }

    /// Counts one more line of `bytes_read` bytes.
    fn incr(&mut self, bytes_read: &usize)
        ensures
            final(self)@ == old(self)@.advanced(*bytes_read),
            final(self).reader() == old(self).reader(),
    {
        self.line_index = add_wrapping(self.line_index, 1);
        self.bytes_offset = add_wrapping(self.bytes_offset, *bytes_read);
    }

    /// Sets both counters to zero without moving the stream.
    pub fn reset(&mut self)
        ensures
            final(self)@ == old(self)@.restarted(),
            final(self).reader() == old(self).reader(),
    {
        self.line_index = 0;
        self.bytes_offset = 0;
    }

    /// Moves the stream to `bytes_offset` and takes `line_index` as the line
    /// found there. Fails when the offset lies past the end of the stream,
    /// when the length of the stream cannot be measured, or when the stream
    /// cannot be moved; on failure the counters stay as they were, and a
    /// target out of bounds puts the stream back where it stood. The error
    /// is the one [`seek_bounds`] gives on the measured length, or, when the
    /// move itself fails, the one [`after_move`] gives.
    pub fn seek(&mut self, line_index: usize, bytes_offset: usize) -> (r: Result<usize, IterManError>)
        ensures
            final(self)@.round_robin == old(self)@.round_robin,
            r matches Ok(p) ==> p == bytes_offset && final(self)@ == (BufferListView { line_index, bytes_offset, ..old(self)@ }),
            r matches Err(e) ==> final(self)@ == old(self)@ && (e matches IterManError::StreamOutOfBounds { line_index: l, bytes_offset: b, max_len: _ }
                && l == line_index && b == bytes_offset),
    {
        let here = seek_reader(&mut self.buf_reader, SeekTarget::Current);
        let stream_len = seek_reader(&mut self.buf_reader, SeekTarget::End);
        let target = match seek_bounds(line_index, bytes_offset, stream_len) {
            Ok(t) => t,
            Err(e) => {
                if let Some(p) = here {
                    let _ = seek_reader(&mut self.buf_reader, SeekTarget::Start(p));
                }
                return Err(e);
            },
        };
        let measured = match stream_len {
            Some(n) => n,
            None => 0,
        };
        let moved = seek_reader(&mut self.buf_reader, SeekTarget::Start(target)).is_some();
        let r = after_move(line_index, bytes_offset, measured, moved);
        if moved {
            self.line_index = line_index;
            self.bytes_offset = bytes_offset;
        }
        r
    }

    /// The number of lines taken since the last reset or seek.
    pub fn line_index(&self) -> (r: usize)
        ensures
            r == self@.line_index,
    {
        self.line_index
    }

    /// The number of bytes taken since the last reset or seek.
    pub fn bytes_offset(&self) -> (r: usize)
        ensures
            r == self@.bytes_offset,
    {
        self.bytes_offset
    }

    /// Reads the next line and hands it out trimmed; the counters grow by one
    /// line and by the bytes of the line as read, newline included. At the
    /// end of the stream a round-robin list rewinds to the start and reads
    /// once more; an empty stream gives nothing. A failed read or seek counts
    /// as the end.
    pub fn next(&mut self) -> (r: Option<String>)
        ensures
            final(self)@.round_robin == old(self)@.round_robin,
            r is None ==> final(self)@ == old(self)@ || (old(self)@.round_robin && final(self)@ == old(self)@.restarted()),
            r matches Some(line) ==> exists|raw: Seq<char>, n: usize|
                #![trigger trimmed(raw), took_line(old(self)@, final(self)@, n)]
                line@ == trimmed(raw) && encode_utf8(raw).len() == n && took_line(old(self)@, final(self)@, n),
    {
        let first = read_line_from(&mut self.buf_reader);
        let ghost g1 = first;
        match self.after_read(first, false) {
            ReadStep::Line(line) => {
                proof {
                    assert(took_line(old(self)@, self@, g1.unwrap().0) && line@ == trimmed(g1.unwrap().1@));
                }
                Some(line)
            },
            ReadStep::End => None,
            ReadStep::Rewind => {
                match seek_reader(&mut self.buf_reader, SeekTarget::Start(0)) {
                    Some(_) => {},
                    None => return None,
                }
                self.reset();
                let second = read_line_from(&mut self.buf_reader);
                let ghost g2 = second;
                match self.after_read(second, true) {
                    ReadStep::Line(line) => {
                        proof {
                            assert(took_line(old(self)@, self@, g2.unwrap().0) && line@ == trimmed(g2.unwrap().1@));
                        }
                        Some(line)
                    },
                    _ => None,
                }
            },
        }
    }

    /// Decides what one read of the stream leads to: a line of `n > 0` bytes
    /// is counted and handed out trimmed; a read of no bytes ends the list,
    /// or asks for a rewind when the list is round-robin and has not just
    /// rewound; a failed read (`None`) ends the list.
    pub fn after_read(&mut self, read: Option<(usize, String)>, rewound: bool) -> (r: ReadStep)
        ensures
            match read {
                None => r is End && final(self)@ == old(self)@,
                Some((n, raw)) => if n > 0 {
                    &&& r matches ReadStep::Line(line) && line@ == trimmed(raw@)
                    &&& final(self)@ == old(self)@.advanced(n)
                } else {
                    &&& final(self)@ == old(self)@
                    &&& if old(self)@.round_robin && !rewound { r is Rewind } else { r is End }
                },
            },
    {
        match read {
            None => ReadStep::End,
            Some((bytes_read, raw)) => {
                if bytes_read > 0 {
                    self.incr(&bytes_read);
                    ReadStep::Line(trim_line(&raw))
                } else if self.round_robin && !rewound {
                    ReadStep::Rewind
                } else {
                    ReadStep::End
                }
            },
        }
    }
}

/// Abstract state of a [`BufferArrayList`]: the state of each stream slot,
/// which slots have reported their end, and the slot whose turn it is.
pub struct BufferArrayListView {
    pub slots: Seq<BufferListView>,
    pub finished: Seq<bool>,
    pub active: nat,
}

impl BufferArrayListView {
    /// One flag per slot, and the active slot among the slots.
    pub open spec fn wf(self) -> bool {
        &&& self.finished.len() == self.slots.len()
        &&& (self.slots.len() == 0 ==> self.active == 0)
        &&& (self.slots.len() > 0 ==> self.active < self.slots.len())
    }

    /// Every slot has reported its end.
    pub open spec fn exhausted(self) -> bool {
        forall|k: int| 0 <= k < self.slots.len() ==> #[trigger] self.finished[k]
    }

    /// The slot after slot `k`, the first one after the last.
    pub open spec fn after_slot(self, k: int) -> nat {
        if k + 1 == self.slots.len() { 0 } else { (k + 1) as nat }
    }

    /// How many turns after the active slot slot `j` comes.
    pub open spec fn offset(self, j: int) -> int {
        if j >= self.active { j - self.active } else { j + self.slots.len() - self.active }
    }

    /// In `after`, every slot less than `d` turns after the active one is
    /// retired; it kept its state, or gave nothing now and was rewound.
    pub open spec fn retired_before(self, after: Self, d: int) -> bool {
        forall|j: int|
            0 <= j < self.slots.len() && #[trigger] self.offset(j) < d ==> after.finished[j] && (after.slots[j]
                == self.slots[j] || (!self.finished[j] && after.slots[j] == self.slots[j].restarted()))
    }

    /// In `after`, every slot `d` or more turns after the active one is as
    /// it was.
    pub open spec fn untouched_from(self, after: Self, d: int) -> bool {
        forall|j: int|
            0 <= j < self.slots.len() && #[trigger] self.offset(j) >= d ==> after.finished[j] == self.finished[j]
                && after.slots[j] == self.slots[j]
    }

    /// `after` follows `self` by a call that handed out `line` from slot
    /// `s`: the slots before it in turn are retired, those after it are as
    /// they were, slot `s` took one line, and the turn passes to the slot
    /// after `s`.
    pub open spec fn served(self, after: Self, s: int, line: Seq<char>) -> bool {
        &&& 0 <= s < self.slots.len()
        &&& after.slots.len() == self.slots.len()
        &&& after.finished.len() == self.finished.len()
        &&& self.retired_before(after, self.offset(s))
        &&& self.untouched_from(after, self.offset(s) + 1)
        &&& !self.finished[s] && !after.finished[s]
        &&& after.active == self.after_slot(s)
        &&& exists|raw: Seq<char>, n: usize|
            #![trigger trimmed(raw), took_line(self.slots[s], after.slots[s], n)]
            line == trimmed(raw) && encode_utf8(raw).len() == n && took_line(self.slots[s], after.slots[s], n)
    }
}

/// A cursor that takes one line from each of several streams in turn. A
/// stream that reports its end is retired and passed over from then on.
#[verifier::reject_recursive_types(T)]
pub struct BufferArrayList<T> {
    buf_lists: Vec<BufferList<T>>,
    finished: Vec<bool>,
    arr_index: usize,
}

impl<T> View for BufferArrayList<T> {
    type V = BufferArrayListView;

    closed spec fn view(&self) -> BufferArrayListView {
        BufferArrayListView {
            slots: self.buf_lists@.map_values(|l: BufferList<T>| l@),
            finished: self.finished@,
            active: self.arr_index as nat,
        }
    }
}

impl<T: Read + Seek> BufferArrayList<T> {
    /// A cursor over `buf_arr`, slot 0 first, no stream retired.
    pub fn new(buf_arr: Vec<BufferList<T>>) -> (r: Self)
        ensures
            r@.slots == buf_arr@.map_values(|l: BufferList<T>| l@),
            r@.finished == Seq::new(buf_arr@.len(), |k: int| false),
            r@.active == 0,
            r@.wf(),
    {
        let n = buf_arr.len();
        let mut finished: Vec<bool> = Vec::new();
        let mut k: usize = 0;
        while k < n
            invariant
                k <= n,
                finished@.len() == k,
                forall|j: int| 0 <= j < k ==> finished@[j] == false,
            decreases n - k,
        {
            finished.push(false);
            k = k + 1;
        }
        let r = BufferArrayList { buf_lists: buf_arr, finished, arr_index: 0 };
        assert(r@.finished =~= Seq::new(n as nat, |j: int| false));
        r
    }

    /// Records what slot `k` gave: nothing retires the slot, and either way
    /// the turn passes to the slot after it. The line, if any, is handed on.
    pub fn after_slot_read(&mut self, k: usize, line: Option<String>) -> (r: Option<String>)
        requires
            old(self)@.wf(),
            k < old(self)@.slots.len(),
        ensures
            r == line,
            final(self)@ == (BufferArrayListView {
                finished: if line is None { old(self)@.finished.update(k as int, true) } else { old(self)@.finished },
                active: old(self)@.after_slot(k as int),
                ..old(self)@
            }),
            final(self)@.wf(),
    {
        let n = self.buf_lists.len();
        assert(n == old(self)@.slots.len());
        if line.is_none() {
            self.finished.set(k, true);
        }
        self.arr_index = if k + 1 == n { 0 } else { k + 1 };
        line
    }

    /// Takes the next line from the first stream, in turn from the active
    /// one, that has not reported its end, and passes the turn to the stream
    /// after it. A stream that gives nothing is retired and the next one is
    /// asked in the same call; nothing is handed out once all are retired.
    pub fn next(&mut self) -> (r: Option<String>)
        requires
            old(self)@.wf(),
        ensures
            final(self)@.wf(),
            final(self)@.slots.len() == old(self)@.slots.len(),
            r is None ==> final(self)@.exhausted() && old(self)@.retired_before(final(self)@, old(self)@.slots.len() as int),
            r matches Some(line) ==> exists|s: int| #[trigger] old(self)@.served(final(self)@, s, line@),
            old(self)@.exhausted() ==> r is None && final(self)@ == old(self)@,
            forall|k: int|
                0 <= k < old(self)@.slots.len() && old(self)@.finished[k] ==> final(self)@.finished[k]
                    && final(self)@.slots[k] == old(self)@.slots[k],
    {
        let n = self.buf_lists.len();
        let ghost v = self@;
        if n == 0 {
            return None;
        }
        let mut d: usize = 0;
        let mut k: usize = self.arr_index;
        while d < n
            invariant
                v == old(self)@,
                v.wf(),
                self@.wf(),
                n == self.buf_lists.len(),
                v.slots.len() == n,
                self@.slots.len() == n,
                n > 0,
                d <= n,
                k < n,
                d < n ==> v.offset(k as int) == d,
                v.retired_before(self@, d as int),
                v.untouched_from(self@, d as int),
                v.exhausted() ==> self@ == v,
            decreases n - d,
        {
            if !self.finished[k] {
                let ghost before = self@;
                let line = self.buf_lists[k].next();
                proof {
                    assert(self@.slots[k as int] == self.buf_lists@[k as int]@);
                    assert(line matches Some(l) ==> exists|raw: Seq<char>, m: usize|
                        #![trigger trimmed(raw), took_line(before.slots[k as int], self@.slots[k as int], m)]
                        l@ == trimmed(raw) && encode_utf8(raw).len() == m && took_line(before.slots[k as int], self@.slots[k as int], m));
                    assert(forall|j: int| 0 <= j < n && j != k ==> self@.slots[j] == before.slots[j]);
                }
                let got = self.after_slot_read(k, line);
                if got.is_some() {
                    proof {
                        let l = got.unwrap();
                        let w = self@;
                        assert(forall|j: int| 0 <= j < n && j != k ==> w.slots[j] == before.slots[j]);
                        assert(w.finished == before.finished);
                        assert forall|j: int| 0 <= j < n && #[trigger] v.offset(j) < v.offset(k as int) implies w.finished[j]
                            && (w.slots[j] == v.slots[j] || (!v.finished[j] && w.slots[j] == v.slots[j].restarted())) by {
                            assert(v.offset(j) < d);
                        }
                        assert(v.retired_before(w, v.offset(k as int)));
                        assert forall|j: int| 0 <= j < n && #[trigger] v.offset(j) >= v.offset(k as int) + 1 implies w.finished[j]
                            == v.finished[j] && w.slots[j] == v.slots[j] by {
                            assert(v.offset(j) >= d);
                        }
                        assert(v.untouched_from(w, v.offset(k as int) + 1));
                        assert(v.slots[k as int] == before.slots[k as int] && v.finished[k as int] == before.finished[k as int]) by {
                            assert(v.offset(k as int) >= d);
                        }
                        assert(!v.finished[k as int] && !w.finished[k as int]);
                        assert(w.active == v.after_slot(k as int));
                        assert(exists|raw: Seq<char>, m: usize|
                            #![trigger trimmed(raw), took_line(v.slots[k as int], w.slots[k as int], m)]
                            l@ == trimmed(raw) && encode_utf8(raw).len() == m && took_line(v.slots[k as int], w.slots[k as int], m));
                        assert(v.served(w, k as int, l@));
                        assert forall|j: int| 0 <= j < n && v.finished[j] implies w.finished[j] && w.slots[j] == v.slots[j] by {
                            if v.offset(j) < v.offset(k as int) {
                                assert(v.retired_before(w, v.offset(k as int)));
                            } else if v.offset(j) > v.offset(k as int) {
                                assert(v.untouched_from(w, v.offset(k as int) + 1));
                            } else {
                                assert(j == k);
                            }
                        }
                    }
                    return got;
                }
            }
            k = if k + 1 == n { 0 } else { k + 1 };
            d = d + 1;
        }
        proof {
            assert forall|j: int| 0 <= j < n implies #[trigger] self@.finished[j] by {
                assert(v.offset(j) < n);
            }
            assert forall|j: int| 0 <= j < n && v.finished[j] implies self@.finished[j] && self@.slots[j] == v.slots[j] by {
                assert(v.offset(j) < n);
            }
        }
        None
    }
}

// Verus does not accept an impl of a trait of this crate bounded by
// `std::io::Read` and `std::io::Seek`, so the capability is given for each
// in-memory reader instead.

impl<'a> ListLike for BufferList<Cursor<&'a str>> {
    type Item = String;

    open spec fn valid(&self) -> bool {
        true
    }

    fn iter(&mut self) -> (r: Option<String>)
        ensures
            final(self)@.round_robin == old(self)@.round_robin,
            r is None ==> final(self)@ == old(self)@ || (old(self)@.round_robin && final(self)@ == old(self)@.restarted()),
            r matches Some(line) ==> exists|raw: Seq<char>, n: usize|
                #![trigger trimmed(raw), took_line(old(self)@, final(self)@, n)]
                line@ == trimmed(raw) && encode_utf8(raw).len() == n && took_line(old(self)@, final(self)@, n),
    {
        self.next()
    }
}

impl<'a> ListLike for BufferArrayList<Cursor<&'a str>> {
    type Item = String;

    open spec fn valid(&self) -> bool {
        self@.wf()
    }

    fn iter(&mut self) -> (r: Option<String>)
        ensures
            final(self)@.slots.len() == old(self)@.slots.len(),
            r is None ==> final(self)@.exhausted() && old(self)@.retired_before(final(self)@, old(self)@.slots.len() as int),
            r matches Some(line) ==> exists|s: int| #[trigger] old(self)@.served(final(self)@, s, line@),
            old(self)@.exhausted() ==> r is None && final(self)@ == old(self)@,
            forall|k: int|
                0 <= k < old(self)@.slots.len() && old(self)@.finished[k] ==> final(self)@.finished[k]
                    && final(self)@.slots[k] == old(self)@.slots[k],
    {
        self.next()
    }
}

impl<'a> ListLike for BufferList<Cursor<&'a [u8]>> {
    type Item = String;

    open spec fn valid(&self) -> bool {
        true
    }

    fn iter(&mut self) -> (r: Option<String>)
        ensures
            final(self)@.round_robin == old(self)@.round_robin,
            r is None ==> final(self)@ == old(self)@ || (old(self)@.round_robin && final(self)@ == old(self)@.restarted()),
            r matches Some(line) ==> exists|raw: Seq<char>, n: usize|
                #![trigger trimmed(raw), took_line(old(self)@, final(self)@, n)]
                line@ == trimmed(raw) && encode_utf8(raw).len() == n && took_line(old(self)@, final(self)@, n),
    {
        self.next()
    }
}

impl<'a> ListLike for BufferArrayList<Cursor<&'a [u8]>> {
    type Item = String;

    open spec fn valid(&self) -> bool {
        self@.wf()
    }

    fn iter(&mut self) -> (r: Option<String>)
        ensures
            final(self)@.slots.len() == old(self)@.slots.len(),
            r is None ==> final(self)@.exhausted() && old(self)@.retired_before(final(self)@, old(self)@.slots.len() as int),
            r matches Some(line) ==> exists|s: int| #[trigger] old(self)@.served(final(self)@, s, line@),
            old(self)@.exhausted() ==> r is None && final(self)@ == old(self)@,
            forall|k: int|
                0 <= k < old(self)@.slots.len() && old(self)@.finished[k] ==> final(self)@.finished[k]
                    && final(self)@.slots[k] == old(self)@.slots[k],
    {
        self.next()
    }
}

impl ListLike for BufferList<Cursor<String>> {
    type Item = String;

    open spec fn valid(&self) -> bool {
        true
    }

    fn iter(&mut self) -> (r: Option<String>)
        ensures
            final(self)@.round_robin == old(self)@.round_robin,
            r is None ==> final(self)@ == old(self)@ || (old(self)@.round_robin && final(self)@ == old(self)@.restarted()),
            r matches Some(line) ==> exists|raw: Seq<char>, n: usize|
                #![trigger trimmed(raw), took_line(old(self)@, final(self)@, n)]
                line@ == trimmed(raw) && encode_utf8(raw).len() == n && took_line(old(self)@, final(self)@, n),
    {
        self.next()
    }
}

impl ListLike for BufferArrayList<Cursor<String>> {
    type Item = String;

    open spec fn valid(&self) -> bool {
        self@.wf()
    }

    fn iter(&mut self) -> (r: Option<String>)
        ensures
            final(self)@.slots.len() == old(self)@.slots.len(),
            r is None ==> final(self)@.exhausted() && old(self)@.retired_before(final(self)@, old(self)@.slots.len() as int),
            r matches Some(line) ==> exists|s: int| #[trigger] old(self)@.served(final(self)@, s, line@),
            old(self)@.exhausted() ==> r is None && final(self)@ == old(self)@,
            forall|k: int|
                0 <= k < old(self)@.slots.len() && old(self)@.finished[k] ==> final(self)@.finished[k]
                    && final(self)@.slots[k] == old(self)@.slots[k],
    {
        self.next()
    }
}

impl ListLike for BufferList<Cursor<Vec<u8>>> {
    type Item = String;

    open spec fn valid(&self) -> bool {
        true
    }

    fn iter(&mut self) -> (r: Option<String>)
        ensures
            final(self)@.round_robin == old(self)@.round_robin,
            r is None ==> final(self)@ == old(self)@ || (old(self)@.round_robin && final(self)@ == old(self)@.restarted()),
            r matches Some(line) ==> exists|raw: Seq<char>, n: usize|
                #![trigger trimmed(raw), took_line(old(self)@, final(self)@, n)]
                line@ == trimmed(raw) && encode_utf8(raw).len() == n && took_line(old(self)@, final(self)@, n),
    {
        self.next()
    }
}

impl ListLike for BufferArrayList<Cursor<Vec<u8>>> {
    type Item = String;

    open spec fn valid(&self) -> bool {
        self@.wf()
    }

    fn iter(&mut self) -> (r: Option<String>)
        ensures
            final(self)@.slots.len() == old(self)@.slots.len(),
            r is None ==> final(self)@.exhausted() && old(self)@.retired_before(final(self)@, old(self)@.slots.len() as int),
            r matches Some(line) ==> exists|s: int| #[trigger] old(self)@.served(final(self)@, s, line@),
            old(self)@.exhausted() ==> r is None && final(self)@ == old(self)@,
            forall|k: int|
                0 <= k < old(self)@.slots.len() && old(self)@.finished[k] ==> final(self)@.finished[k]
                    && final(self)@.slots[k] == old(self)@.slots[k],
    {
        self.next()
    }
}

} // verus!
