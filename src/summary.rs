//! Traced resources, their running I/O statistics, the filter that hides
//! uninteresting system resources, and the report rendered per resource.

use vstd::prelude::*;
use vstd::string::*;

use crate::histogram::{bumped, capped, count_in, largest_size, Histogram};
use crate::humanize::{humanize, humanized};
use crate::text::{decimal, has_prefix, same_text, starts_with, to_decimal};

verus! {

/// A file-like resource, named by its path or by a pseudo-name such as
/// `STDIN`, `STDOUT`, `STDERR` or `DUP`.
pub struct FileDescription {
    pub path: String,
}

impl FileDescription {
    pub fn new(path: String) -> (r: FileDescription)
        ensures
            r.path == path,
    {
        FileDescription { path }
    }

    /// `FILE Path:<path>`.
    pub open spec fn text(&self) -> Seq<char> {
        "FILE Path:"@ + self.path@
    }

    pub fn to_string(&self) -> (r: String)
        ensures
            r@ == self.text(),
    {
        let mut r = String::from_str("FILE Path:");
        r.append(self.path.as_str());
        r
    }
}

/// A network resource: its local bind endpoint and its remote endpoint.
pub struct SocketDescription {
    bind: String,
    connect: String,
}

impl SocketDescription {
    /// The local endpoint.
    pub closed spec fn bind_text(&self) -> Seq<char> {
        self.bind@
    }

    /// The remote endpoint.
    pub closed spec fn connect_text(&self) -> Seq<char> {
        self.connect@
    }

    /// A socket whose endpoints are not known yet: both are empty.
    pub fn new() -> (r: SocketDescription)
        ensures
            r.bind_text() == Seq::<char>::empty(),
            r.connect_text() == Seq::<char>::empty(),
    {
        SocketDescription { bind: String::new(), connect: String::new() }
    }

    /// Sets both endpoints, once something outside the statistics has
    /// learned them.
    pub fn set_endpoints(&mut self, bind: String, connect: String)
        ensures
            final(self).bind_text() == bind@,
            final(self).connect_text() == connect@,
    {
        self.bind = bind;
        self.connect = connect;
    }

    /// `SOCKET Bind:<bind> Connect:<connect>`.
    pub open spec fn text(&self) -> Seq<char> {
        "SOCKET Bind:"@ + self.bind_text() + " Connect:"@ + self.connect_text()
    }

    pub fn to_string(&self) -> (r: String)
        ensures
            r@ == self.text(),
    {
        let mut r = String::from_str("SOCKET Bind:");
        r.append(self.bind.as_str());
        r.append(" Connect:");
        r.append(self.connect.as_str());
        r
    }
}

/// The kind of a traced resource, fixed when it is first seen.
pub enum GenericFileDescriptor {
    File(FileDescription),
    Socket(SocketDescription),
    Pipe,
}

/// Paths of system and pseudo resources that reports leave out unless
/// asked to be verbose.
pub open spec fn is_noise_path(p: Seq<char>) -> bool {
    ||| p == "/dev/null"@
    ||| p == "STDOUT"@
    ||| p == "STDERR"@
    ||| p == "STDIN"@
    ||| p == "DUP"@
    ||| has_noise_prefix(p)
}

/// `p` lies under one of the system directories.
pub open spec fn has_noise_prefix(p: Seq<char>) -> bool {
    ||| has_prefix(p, "/bin/"@)
    ||| has_prefix(p, "/etc/"@)
    ||| has_prefix(p, "/lib/"@)
    ||| has_prefix(p, "/lib64/"@)
    ||| has_prefix(p, "/opt/"@)
    ||| has_prefix(p, "/proc/"@)
    ||| has_prefix(p, "/run/"@)
    ||| has_prefix(p, "/sbin/"@)
    ||| has_prefix(p, "/sys/"@)
    ||| has_prefix(p, "/tmp/"@)
    ||| has_prefix(p, "/usr/"@)
}

/// Tells whether reports leave out the file at `p` when not verbose.
pub fn is_noise(p: &str) -> (r: bool)
    ensures
        r == is_noise_path(p@),
{
    same_text(p, "/dev/null") || same_text(p, "STDOUT") || same_text(p, "STDERR")
        || same_text(p, "STDIN") || same_text(p, "DUP") || starts_with(p, "/bin/")
        || starts_with(p, "/etc/") || starts_with(p, "/lib/") || starts_with(p, "/lib64/")
        || starts_with(p, "/opt/") || starts_with(p, "/proc/") || starts_with(p, "/run/")
        || starts_with(p, "/sbin/") || starts_with(p, "/sys/") || starts_with(p, "/tmp/")
        || starts_with(p, "/usr/")
}

impl GenericFileDescriptor {
    /// The text that names the resource in reports.
    pub open spec fn text(&self) -> Seq<char> {
        match self {
            GenericFileDescriptor::File(f) => f.text(),
            GenericFileDescriptor::Socket(s) => s.text(),
            GenericFileDescriptor::Pipe => "PIPE"@,
        }
    }

    pub fn to_string(&self) -> (r: String)
        ensures
            r@ == self.text(),
    {
        match self {
            GenericFileDescriptor::File(f) => f.to_string(),
            GenericFileDescriptor::Socket(s) => s.to_string(),
            GenericFileDescriptor::Pipe => String::from_str("PIPE"),
        }
    }

    /// Reports leave the resource out: only when not verbose, and then
    /// pipes and files at noise paths. Sockets are always shown.
    pub open spec fn hidden(&self, verbose: bool) -> bool {
        !verbose && match self {
            GenericFileDescriptor::File(f) => is_noise_path(f.path@),
            GenericFileDescriptor::Socket(_) => false,
            GenericFileDescriptor::Pipe => true,
        }
    }

    /// Tells whether reports leave the resource out.
    pub fn is_hidden(&self, verbose: bool) -> (r: bool)
        ensures
            r == self.hidden(verbose),
    {
        if verbose {
            return false;
        }
        match self {
            GenericFileDescriptor::File(f) => is_noise(f.path.as_str()),
            GenericFileDescriptor::Socket(_) => false,
            GenericFileDescriptor::Pipe => true,
        }
    }
}

/// One report line:
/// `<direction> <bytes> with <ops> ops (<size> / op) <resource>`,
/// the operation count capped at `u64::MAX`.
pub open spec fn report_line(
    direction: Seq<char>,
    bytes: u64,
    ops: nat,
    size: u64,
    resource: Seq<char>,
) -> Seq<char> {
    direction + " "@ + humanized(bytes) + " with "@ + decimal(capped(ops)) + " ops ("@
        + humanized(size) + " / op) "@ + resource
}

/// The line for one direction: none when no operation was recorded, else
/// the line naming the largest recorded size.
pub open spec fn direction_line(
    direction: Seq<char>,
    hist: Map<u64, u64>,
    ops: nat,
    bytes: u64,
    resource: Seq<char>,
) -> Option<Seq<char>> {
    if hist == Map::<u64, u64>::empty() {
        None
    } else {
        Some(report_line(direction, bytes, ops, largest_size(hist), resource))
    }
}

/// The characters of an optional line.
pub open spec fn line_view(line: Option<String>) -> Option<Seq<char>> {
    match line {
        Some(s) => Some(s@),
        None => None,
    }
}

/// What a resource's report consists of.
pub enum Report {
    /// The filter hides the resource: nothing at all.
    Suppressed,
    /// No I/O was recorded: a diagnostic message and no report line.
    NoIo { message: String },
    /// The read line, then the write line, each present when that direction
    /// saw I/O.
    Lines { read: Option<String>, write: Option<String> },
}

/// Running I/O statistics of one traced resource.
pub struct Summary {
    pub descriptor: GenericFileDescriptor,
    read_freq: Histogram,
    write_freq: Histogram,
    read_bytes: u64,
    write_bytes: u64,
}

impl Summary {
    /// The kind of the resource.
    pub closed spec fn kind(&self) -> GenericFileDescriptor {
        self.descriptor
    }

    /// Both histograms are well formed.
    pub closed spec fn wf(&self) -> bool {
        self.read_freq.wf() && self.write_freq.wf()
    }

    /// Read operations by requested size.
    pub closed spec fn reads(&self) -> Map<u64, u64> {
        self.read_freq@
    }

    /// Write operations by requested size.
    pub closed spec fn writes(&self) -> Map<u64, u64> {
        self.write_freq@
    }

    /// The number of read operations: the sum of the read counts.
    pub closed spec fn read_ops(&self) -> nat {
        self.read_freq.ops()
    }

    /// The number of write operations: the sum of the write counts.
    pub closed spec fn write_ops(&self) -> nat {
        self.write_freq.ops()
    }

    /// Bytes actually read.
    pub closed spec fn read_total(&self) -> u64 {
        self.read_bytes
    }

    /// Bytes actually written.
    pub closed spec fn write_total(&self) -> u64 {
        self.write_bytes
    }

    /// Nothing recorded yet.
    pub open spec fn is_fresh(&self) -> bool {
        &&& self.wf()
        &&& self.reads() == Map::<u64, u64>::empty()
        &&& self.writes() == Map::<u64, u64>::empty()
        &&& self.read_ops() == 0
        &&& self.write_ops() == 0
        &&& self.read_total() == 0
        &&& self.write_total() == 0
    }

    pub fn new(descriptor: GenericFileDescriptor) -> (r: Summary)
        ensures
            r.kind() == descriptor,
            r.is_fresh(),
    {
        Summary {
            descriptor,
            read_freq: Histogram::new(),
            write_freq: Histogram::new(),
            read_bytes: 0,
            write_bytes: 0,
        }
    }

    pub fn file(path: String) -> (r: Summary)
        ensures
            r.kind() is File,
            r.kind()->File_0.path == path,
            r.is_fresh(),
    {
        Summary::new(GenericFileDescriptor::File(FileDescription::new(path)))
    }

    pub fn pipe() -> (r: Summary)
        ensures
            r.kind() is Pipe,
            r.is_fresh(),
    {
        Summary::new(GenericFileDescriptor::Pipe)
    }

    pub fn socket() -> (r: Summary)
        ensures
            r.kind() is Socket,
            r.kind()->Socket_0.bind_text() == Seq::<char>::empty(),
            r.kind()->Socket_0.connect_text() == Seq::<char>::empty(),
            r.is_fresh(),
    {
        Summary::new(GenericFileDescriptor::Socket(SocketDescription::new()))
    }

    /// Clears all statistics; the resource stays the same.
    pub fn reset(&mut self)
        ensures
            final(self).kind() == old(self).kind(),
            final(self).is_fresh(),
    {
        self.read_freq.clear();
        self.write_freq.clear();
        self.read_bytes = 0;
        self.write_bytes = 0;
    }

    /// Records a read that asked for `op_size` bytes and got `bytes`.
    /// Counts and totals saturate at `u64::MAX`.
    pub fn update_read(&mut self, op_size: u64, bytes: u64)
        requires
            old(self).wf(),
        ensures
            final(self).wf(),
            final(self).kind() == old(self).kind(),
            final(self).reads() == bumped(old(self).reads(), op_size),
            final(self).read_ops() == old(self).read_ops() + if count_in(old(self).reads(), op_size)
                == u64::MAX {
                0nat
            } else {
                1nat
            },
            final(self).read_total() == old(self).read_total().saturating_add(bytes),
            final(self).writes() == old(self).writes(),
            final(self).write_ops() == old(self).write_ops(),
            final(self).write_total() == old(self).write_total(),
    {
        self.read_freq.bump(op_size);
        self.read_bytes = self.read_bytes.saturating_add(bytes);
    }

    /// Records a write that asked for `op_size` bytes and got `bytes`.
    /// Counts and totals saturate at `u64::MAX`.
    pub fn update_write(&mut self, op_size: u64, bytes: u64)
        requires
            old(self).wf(),
        ensures
            final(self).wf(),
            final(self).kind() == old(self).kind(),
            final(self).writes() == bumped(old(self).writes(), op_size),
            final(self).write_ops() == old(self).write_ops() + if count_in(old(self).writes(), op_size)
                == u64::MAX {
                0nat
            } else {
                1nat
            },
            final(self).write_total() == old(self).write_total().saturating_add(bytes),
            final(self).reads() == old(self).reads(),
            final(self).read_ops() == old(self).read_ops(),
            final(self).read_total() == old(self).read_total(),
    {
        self.write_freq.bump(op_size);
        self.write_bytes = self.write_bytes.saturating_add(bytes);
    }

    /// How many reads asked for `op_size` bytes.
    pub fn read_count(&self, op_size: u64) -> (r: u64)
        requires
            self.wf(),
        ensures
            r == count_in(self.reads(), op_size),
    {
        self.read_freq.count(op_size)
    }

    /// How many writes asked for `op_size` bytes.
    pub fn write_count(&self, op_size: u64) -> (r: u64)
        requires
            self.wf(),
        ensures
            r == count_in(self.writes(), op_size),
    {
        self.write_freq.count(op_size)
    }

    /// The bytes actually read.
    pub fn read_bytes(&self) -> (r: u64)
        ensures
            r == self.read_total(),
    {
        self.read_bytes
    }

    /// The bytes actually written.
    pub fn write_bytes(&self) -> (r: u64)
        ensures
            r == self.write_total(),
    {
        self.write_bytes
    }

    /// The report of this resource: nothing when the filter hides it, a
    /// diagnostic message when no I/O was recorded, else a read line and a
    /// write line for the directions that saw I/O.
    pub fn show(&self, verbose: bool) -> (r: Report)
        requires
            self.wf(),
        ensures
            is_report_of(r, *self, verbose),
    {
        if self.descriptor.is_hidden(verbose) {
            return Report::Suppressed;
        }
        let resource = self.descriptor.to_string();
        let no_reads = self.read_freq.is_empty();
        let no_writes = self.write_freq.is_empty();
        if no_reads && no_writes {
            let mut message = String::from_str("no I/O with ");
            message.append(resource.as_str());
            return Report::NoIo { message };
        }
        let read = if no_reads {
            None
        } else {
            Some(
                line(
                    "read",
                    self.read_bytes,
                    self.read_freq.total_ops(),
                    self.read_freq.max_size(),
                    resource.as_str(),
                ),
            )
        };
        let write = if no_writes {
            None
        } else {
            Some(
                line(
                    "write",
                    self.write_bytes,
                    self.write_freq.total_ops(),
                    self.write_freq.max_size(),
                    resource.as_str(),
                ),
            )
        };
        Report::Lines { read, write }
    }
}

/// `r` is the report of `s`: suppressed exactly when the filter hides the
/// resource; a diagnostic `no I/O with <resource>` exactly when it is shown and
/// nothing was recorded; otherwise a line for each direction that saw I/O.
pub open spec fn is_report_of(r: Report, s: Summary, verbose: bool) -> bool {
    &&& s.kind().hidden(verbose) <==> r is Suppressed
    &&& r is NoIo <==> !s.kind().hidden(verbose) && s.reads() == Map::<u64, u64>::empty()
        && s.writes() == Map::<u64, u64>::empty()
    &&& r is NoIo ==> r->message@ == "no I/O with "@ + s.kind().text()
    &&& r is Lines ==> line_view(r->read) == direction_line(
        "read"@,
        s.reads(),
        s.read_ops(),
        s.read_total(),
        s.kind().text(),
    )
    &&& r is Lines ==> line_view(r->write) == direction_line(
        "write"@,
        s.writes(),
        s.write_ops(),
        s.write_total(),
        s.kind().text(),
    )
}

/// The sum of a sequence of byte counts.
pub open spec fn sum_of(s: Seq<u64>) -> nat
    decreases s.len(),
{
    if s.len() == 0 {
        0
    } else {
        sum_of(s.drop_last()) + s.last() as nat
    }
}

/// Each state is what `update_read(size, bytes[i])` makes of the one before.
pub open spec fn read_steps(states: Seq<Summary>, size: u64, bytes: Seq<u64>) -> bool {
    &&& states.len() == bytes.len() + 1
    &&& forall|i: int|
        0 <= i < bytes.len() ==> #[trigger] states[i + 1].reads() == bumped(states[i].reads(), size)
            && states[i + 1].read_total() == states[i].read_total().saturating_add(bytes[i])
}

/// Each state is what `update_write(size, bytes[i])` makes of the one before.
pub open spec fn write_steps(states: Seq<Summary>, size: u64, bytes: Seq<u64>) -> bool {
    &&& states.len() == bytes.len() + 1
    &&& forall|i: int|
        0 <= i < bytes.len() ==> #[trigger] states[i + 1].writes() == bumped(
            states[i].writes(),
            size,
        ) && states[i + 1].write_total() == states[i].write_total().saturating_add(bytes[i])
}

proof fn lemma_steps_prefix(hists: Seq<Map<u64, u64>>, totals: Seq<u64>, size: u64, bytes: Seq<u64>, k: int)
    requires
        hists.len() == bytes.len() + 1,
        totals.len() == bytes.len() + 1,
        0 <= k <= bytes.len(),
        hists[0] == Map::<u64, u64>::empty(),
        totals[0] == 0,
        forall|i: int|
            0 <= i < bytes.len() ==> #[trigger] hists[i + 1] == bumped(hists[i], size)
                && totals[i + 1] == totals[i].saturating_add(bytes[i]),
        bytes.len() <= u64::MAX,
        sum_of(bytes) <= u64::MAX,
    ensures
        count_in(hists[k], size) == k,
        forall|other: u64| other != size ==> !#[trigger] hists[k].contains_key(other),
        totals[k] == sum_of(bytes.take(k)),
        sum_of(bytes.take(k)) <= sum_of(bytes),
    decreases k,
{
    if k == 0 {
        assert(bytes.take(0) =~= Seq::<u64>::empty());
        lemma_sum_prefix(bytes, 0);
    } else {
        lemma_steps_prefix(hists, totals, size, bytes, k - 1);
        assert(bytes.take(k).drop_last() =~= bytes.take(k - 1));
        lemma_sum_prefix(bytes, k);
        assert(hists[k] == bumped(hists[k - 1], size));
    }
}

proof fn lemma_sum_prefix(s: Seq<u64>, k: int)
    requires
        0 <= k <= s.len(),
    ensures
        sum_of(s.take(k)) <= sum_of(s),
    decreases s.len() - k,
{
    if k < s.len() {
        lemma_sum_prefix(s, k + 1);
        assert(s.take(k + 1).drop_last() =~= s.take(k));
    } else {
        assert(s.take(k) =~= s);
    }
}

/// Reading `n` times with the same requested size, starting from a fresh or
/// reset summary, leaves exactly one read size, counted `n` times, and a read
/// total that is the sum of the bytes read (when neither overflows).
pub proof fn lemma_read_additivity(states: Seq<Summary>, size: u64, bytes: Seq<u64>)
    requires
        states[0].reads() == Map::<u64, u64>::empty(),
        states[0].read_total() == 0,
        read_steps(states, size, bytes),
        bytes.len() <= u64::MAX,
        sum_of(bytes) <= u64::MAX,
    ensures
        count_in(states.last().reads(), size) == bytes.len(),
        forall|other: u64| other != size ==> !#[trigger] states.last().reads().contains_key(other),
        states.last().read_total() == sum_of(bytes),
{
    let hists = Seq::new(states.len(), |i: int| states[i].reads());
    let totals = Seq::new(states.len(), |i: int| states[i].read_total());
    assert forall|i: int| 0 <= i < bytes.len() implies #[trigger] hists[i + 1] == bumped(hists[i], size)
        && totals[i + 1] == totals[i].saturating_add(bytes[i]) by {
        assert(states[i + 1].reads() == bumped(states[i].reads(), size));
    }
    lemma_steps_prefix(hists, totals, size, bytes, bytes.len() as int);
    assert(bytes.take(bytes.len() as int) =~= bytes);
}

/// Writing `n` times with the same requested size, starting from a fresh or
/// reset summary, leaves exactly one write size, counted `n` times, and a
/// write total that is the sum of the bytes written (when neither overflows).
pub proof fn lemma_write_additivity(states: Seq<Summary>, size: u64, bytes: Seq<u64>)
    requires
        states[0].writes() == Map::<u64, u64>::empty(),
        states[0].write_total() == 0,
        write_steps(states, size, bytes),
        bytes.len() <= u64::MAX,
        sum_of(bytes) <= u64::MAX,
    ensures
        count_in(states.last().writes(), size) == bytes.len(),
        forall|other: u64| other != size ==> !#[trigger] states.last().writes().contains_key(other),
        states.last().write_total() == sum_of(bytes),
{
    let hists = Seq::new(states.len(), |i: int| states[i].writes());
    let totals = Seq::new(states.len(), |i: int| states[i].write_total());
    assert forall|i: int| 0 <= i < bytes.len() implies #[trigger] hists[i + 1] == bumped(hists[i], size)
        && totals[i + 1] == totals[i].saturating_add(bytes[i]) by {
        assert(states[i + 1].writes() == bumped(states[i].writes(), size));
    }
    lemma_steps_prefix(hists, totals, size, bytes, bytes.len() as int);
    assert(bytes.take(bytes.len() as int) =~= bytes);
}

/// A summary with nothing recorded never gives a report line: it is either
/// suppressed or, when the filter shows it, a single diagnostic message.
pub proof fn lemma_fresh_is_silent(s: Summary, verbose: bool, r: Report)
    requires
        s.is_fresh(),
        is_report_of(r, s, verbose),
    ensures
        !(r is Lines),
        !s.kind().hidden(verbose) ==> r is NoIo,
{
}

/// A pipe is never reported when not verbose, whatever was recorded.
pub proof fn lemma_pipe_hidden(s: Summary, r: Report)
    requires
        s.kind() is Pipe,
        is_report_of(r, s, false),
    ensures
        r is Suppressed,
{
}

/// Renders one report line from its parts.
fn line(direction: &str, bytes: u64, ops: u64, size: u64, resource: &str) -> (r: String)
    ensures
        r@ == direction@ + " "@ + humanized(bytes) + " with "@ + decimal(ops as nat) + " ops ("@
            + humanized(size) + " / op) "@ + resource@,
{
    let mut r = String::from_str(direction);
    r.append(" ");
    r.append(humanize(bytes).as_str());
    r.append(" with ");
    r.append(to_decimal(ops).as_str());
    r.append(" ops (");
    r.append(humanize(size).as_str());
    r.append(" / op) ");
    r.append(resource);
    r
}

} // verus!
