//! The cgroup v2 interface of one directory: which controllers it offers, and
//! what to write into which file to switch them on and to set limits.
//!
//! Nothing here touches the filesystem. Each operation takes what was read and
//! returns what is to be written, as [`FileWrite`]s.

use crate::runner::job_request::{CpuControl, IoControl, MemControl};
use crate::runner::JobRequest;
use crate::text::{ascii, decimal, join, push_char, push_decimal, same_bytes, same_text};
use vstd::prelude::*;
use vstd::slice::slice_subrange;
use vstd::string::*;
use vstd::utf8::encode_utf8;

verus! {

/// The file through which a process joins a cgroup.
pub const PROC_FILE: &'static str = "cgroup.procs";

/// The file that lists the controllers a cgroup offers.
pub const ENABLED_CONTROLLERS: &'static str = "cgroup.controllers";

/// The file that switches controllers on for a cgroup's children.
pub const SUBTREE_CONTROL: &'static str = "cgroup.subtree_control";

/// The file that holds the CPU weight.
pub const CPU_WEIGHT: &'static str = "cpu.weight";

/// The file that holds the memory throttling limit.
pub const MEM_HIGH: &'static str = "memory.high";

/// The file that holds the hard memory limit.
pub const MEM_MAX: &'static str = "memory.max";

/// The file that holds the I/O bandwidth limits.
pub const IO_MAX: &'static str = "io.max";

/// What can go wrong with a cgroup.
#[derive(Clone, Debug, PartialEq, Eq)]
pub enum Error {
    /// The operating system refused a file operation; the number is its errno.
    IO(i32),
    /// The cgroup at this path does not offer every controller that was asked for.
    NotEnabled(String),
    /// No controller has this name.
    UnknownController(String),
    /// The weight is outside 1 to 10000.
    InvalidCpuWeight(u32),
}

/// A resource controller of cgroup v2 that the runner uses.
#[derive(Clone, Copy, Debug, PartialEq, Eq, Structural)]
pub enum Controller {
    Cpu,
    Memory,
    Io,
}

/// The controller with the given name, if there is one.
pub open spec fn named(name: Seq<char>) -> Option<Controller> {
    if name == "cpu"@ {
        Some(Controller::Cpu)
    } else if name == "memory"@ {
        Some(Controller::Memory)
    } else if name == "io"@ {
        Some(Controller::Io)
    } else {
        None
    }
}

/// Every supported controller, in the order in which they are written.
pub open spec fn all_controllers() -> Seq<Controller> {
    seq![Controller::Cpu, Controller::Memory, Controller::Io]
}

impl Controller {
    /// The name by which the kernel knows this controller.
    pub open spec fn name(self) -> Seq<char> {
        match self {
            Controller::Cpu => "cpu"@,
            Controller::Memory => "memory"@,
            Controller::Io => "io"@,
        }
    }

    /// Every supported controller, in the order in which they are written.
    pub fn all() -> (list: &'static [Controller])
        ensures
            list@ == all_controllers(),
    {
        let list: &'static [Controller] = &[Controller::Cpu, Controller::Memory, Controller::Io];
        list
    }

    /// The name by which the kernel knows this controller.
    pub fn as_str(&self) -> (text: &'static str)
        ensures
            text@ == self.name(),
    {
        match self {
            Controller::Cpu => "cpu",
            Controller::Memory => "memory",
            Controller::Io => "io",
        }
    }

    /// The controller's name, as an owned string.
    pub fn to_string(&self) -> (text: String)
        ensures
            text@ == self.name(),
    {
        self.as_str().to_owned()
    }
}

/// What the three names are, letter by letter. Each is the name of its own
/// controller and of no other.
pub proof fn lemma_names_differ()
    ensures
        "cpu"@ == seq!['c', 'p', 'u'],
        "memory"@ == seq!['m', 'e', 'm', 'o', 'r', 'y'],
        "io"@ == seq!['i', 'o'],
        forall|c: Controller| named(#[trigger] c.name()) == Some(c),
{
    reveal_strlit("cpu");
    reveal_strlit("memory");
    reveal_strlit("io");
    assert("cpu"@ =~= seq!['c', 'p', 'u']);
    assert("memory"@ =~= seq!['m', 'e', 'm', 'o', 'r', 'y']);
    assert("io"@ =~= seq!['i', 'o']);
}

impl vstd::std_specs::cmp::PartialEqSpecImpl<str> for Controller {
    open spec fn obeys_eq_spec() -> bool {
        true
    }

    open spec fn eq_spec(&self, other: &str) -> bool {
        self.name() == other@
    }
}

impl PartialEq<str> for Controller {
    /// Whether `other` is the controller's name.
    fn eq(&self, other: &str) -> (same: bool) {
        same_text(self.as_str(), other)
    }
}

impl<'a> vstd::std_specs::convert::FromSpecImpl<&'a Controller> for &'a str {
    // A `&str` is fixed only up to its text: what `from` returns is stated on
    // the function itself.
    open spec fn obeys_from_spec() -> bool {
        false
    }

    open spec fn from_spec(value: &'a Controller) -> Self {
        choose|text: &'a str| text@ == value.name()
    }
}

impl<'a> From<&'a Controller> for &'a str {
    /// The name by which the kernel knows the controller.
    fn from(value: &'a Controller) -> (text: &'a str)
        ensures
            text@ == value.name(),
    {
        value.as_str()
    }
}

impl<'a> vstd::std_specs::convert::TryFromSpecImpl<&'a str> for Controller {
    open spec fn obeys_try_from_spec() -> bool {
        false
    }

    // An error carries a fresh copy of the name, which is fixed only up to
    // its text: what `try_from` returns is stated on the function itself.
    open spec fn try_from_spec(value: &'a str) -> Result<Self, Error> {
        match named(value@) {
            Some(controller) => Ok(controller),
            None => Err(Error::UnknownController(choose|name: String| name@ == value@)),
        }
    }
}

impl<'a> TryFrom<&'a str> for Controller {
    type Error = Error;

    /// The controller called `value`; any other text is handed back as
    /// [`Error::UnknownController`].
    fn try_from(value: &'a str) -> (r: Result<Self, Error>)
        ensures
            match named(value@) {
                Some(controller) => r == Ok::<Controller, Error>(controller),
                None => r matches Err(Error::UnknownController(name)) && name@ == value@,
            },
    {
        proof {
            lemma_names_differ();
        }
        if same_text(value, "memory") {
            Ok(Controller::Memory)
        } else if same_text(value, "cpu") {
            Ok(Controller::Cpu)
        } else if same_text(value, "io") {
            Ok(Controller::Io)
        } else {
            Err(Error::UnknownController(value.to_owned()))
        }
    }
}

/// One write to an interface file: the whole of `contents` goes to `path`.
#[derive(Clone, Debug, PartialEq, Eq)]
pub struct FileWrite {
    pub path: String,
    pub contents: String,
}

impl DeepView for FileWrite {
    type V = (Seq<char>, Seq<char>);

    open spec fn deep_view(&self) -> (Seq<char>, Seq<char>) {
        (self.path@, self.contents@)
    }
}

/// The path of the interface file `file` of the cgroup at `dir`.
pub open spec fn file_in(dir: Seq<char>, file: Seq<char>) -> Seq<char> {
    dir + seq!['/'] + file
}

/// The names of `list`, each with `joiner` in front of it, with one space
/// between one name and the next joiner.
pub open spec fn prefixed(list: Seq<Controller>, joiner: char) -> Seq<char>
    decreases list.len(),
{
    if list.len() == 0 {
        Seq::empty()
    } else {
        prefixed(list.drop_last(), joiner) + (if list.len() > 1 {
            seq![' ']
        } else {
            Seq::empty()
        }) + seq![joiner] + list.last().name()
    }
}

/// Writes the controllers' names in a row, `joiner` in front of each. With
/// `'+'` this is what switches them on in `cgroup.subtree_control`, with `'-'`
/// what switches them off.
pub fn prepend_with(list: &[Controller], joiner: char) -> (text: String)
    ensures
        text@ == prefixed(list@, joiner),
{
    let mut acc = String::new();
    let mut ix: usize = 0;
    while ix < list.len()
        invariant
            0 <= ix <= list@.len(),
            acc@ == prefixed(list@.subrange(0, ix as int), joiner),
        decreases list@.len() - ix,
    {
        let ghost before = acc@;
        if ix > 0 {
            push_char(&mut acc, ' ');
        }
        push_char(&mut acc, joiner);
        acc.append(list[ix].as_str());
        ix = ix + 1;
        proof {
            let done = list@.subrange(0, ix as int);
            assert(done.drop_last() =~= list@.subrange(0, ix - 1));
            assert(done.last() == list@[ix - 1]);
            assert(acc@ =~= before + (if done.len() > 1 {
                seq![' ']
            } else {
                Seq::empty()
            }) + seq![joiner] + done.last().name());
        }
    }
    proof {
        assert(list@.subrange(0, ix as int) =~= list@);
    }
    acc
}

/// `line[from..to]` is one of the words of `line`: it starts at the line's
/// start or behind a space, ends at the line's end or before a space, and holds
/// no space. Two spaces in a row have an empty word between them.
pub open spec fn is_word(line: Seq<u8>, from: int, to: int) -> bool {
    &&& 0 <= from <= to <= line.len()
    &&& from == 0 || line[from - 1] == 32u8
    &&& to == line.len() || line[to] == 32u8
    &&& forall|k: int| from <= k < to ==> line[k] != 32u8
}

/// Whether a word of `line` that ends before `bound` is the controller's name.
pub open spec fn lists_before(line: Seq<u8>, controller: Controller, bound: int) -> bool {
    exists|from: int, to: int|
        #[trigger] is_word(line, from, to) && to < bound && line.subrange(from, to) == encode_utf8(
            controller.name(),
        )
}

/// Whether the controller's name is one of the words of `line`.
pub open spec fn lists(line: Seq<u8>, controller: Controller) -> bool {
    lists_before(line, controller, line.len() as int + 1)
}

/// The controllers that `line` names. Words that name none are passed over.
pub open spec fn enabled(line: Seq<u8>) -> Set<Controller> {
    Set::new(|controller: Controller| lists(line, controller))
}

/// Whether `line` names every controller of `required`.
pub open spec fn covers(line: Seq<u8>, required: Seq<Controller>) -> bool {
    forall|k: int| 0 <= k < required.len() ==> lists(line, #[trigger] required[k])
}

/// A line covers a list exactly when each controller of the list is among
/// those that the line names: the list, as a set, lies within the line's set.
pub proof fn lemma_covers_is_subset(line: Seq<u8>, required: Seq<Controller>)
    ensures
        covers(line, required) <==> required.to_set().subset_of(enabled(line)),
{
    if covers(line, required) {
        assert forall|c: Controller| required.to_set().contains(c) implies enabled(line).contains(
            c,
        ) by {
            let k = choose|k: int| 0 <= k < required.len() && required[k] == c;
            assert(lists(line, required[k]));
        }
    }
    if required.to_set().subset_of(enabled(line)) {
        assert forall|k: int| 0 <= k < required.len() implies lists(line, #[trigger] required[k]) by {
            assert(required.to_set().contains(required[k]));
            assert(enabled(line).contains(required[k]));
        }
    }
}

/// The word that starts at `start` ends at the first space behind it, and the
/// next word starts right behind that space: a word that ends at or before
/// `end` either ends before `start` or is `line[start..end]` itself.
proof fn lemma_next_word(line: Seq<u8>, start: int, end: int, controller: Controller)
    requires
        is_word(line, start, end),
    ensures
        lists_before(line, controller, end + 1) <==> lists_before(line, controller, start)
            || line.subrange(start, end) == encode_utf8(controller.name()),
{
    let name = encode_utf8(controller.name());
    if lists_before(line, controller, end + 1) {
        let (from, to) = choose|from: int, to: int|
            #[trigger] is_word(line, from, to) && to < end + 1 && line.subrange(from, to) == name;
        if to < start {
            assert(lists_before(line, controller, start));
        } else {
            if from < start {
                assert(line[start - 1] == 32u8);
            }
            if from > start {
                assert(line[from - 1] == 32u8);
            }
            if to < end {
                assert(line[to] == 32u8);
            }
            assert(from == start && to == end);
        }
    }
    if lists_before(line, controller, start) {
        let (from, to) = choose|from: int, to: int|
            #[trigger] is_word(line, from, to) && to < start && line.subrange(from, to) == name;
        assert(is_word(line, from, to) && to < end + 1);
    }
    if line.subrange(start, end) == name {
        assert(is_word(line, start, end) && end < end + 1);
    }
}

/// Which of the three controllers a line names.
struct Found {
    cpu: bool,
    memory: bool,
    io: bool,
}

impl Found {
    spec fn has(self, controller: Controller) -> bool {
        match controller {
            Controller::Cpu => self.cpu,
            Controller::Memory => self.memory,
            Controller::Io => self.io,
        }
    }
}

/// Goes through the words of `line` once and notes which controllers they name.
fn scan(line: &[u8]) -> (found: Found)
    ensures
        forall|controller: Controller| found.has(controller) == lists(line@, controller),
{
    let mut found = Found { cpu: false, memory: false, io: false };
    let mut start: usize = 0;
    loop
        invariant_except_break
            0 <= start <= line@.len(),
            start == 0 || line@[start - 1] == 32u8,
            forall|controller: Controller|
                found.has(controller) == lists_before(line@, controller, start as int),
        ensures
            forall|controller: Controller| found.has(controller) == lists(line@, controller),
        decreases line@.len() - start,
    {
        let mut end: usize = start;
        while end < line.len() && line[end] != 32
            invariant
                start <= end <= line@.len(),
                forall|k: int| start <= k < end ==> line@[k] != 32u8,
            decreases line@.len() - end,
        {
            end = end + 1;
        }
        assert(is_word(line@, start as int, end as int));
        let word = slice_subrange(line, start, end);
        let ghost before = found;
        let is_cpu = same_bytes(word, Controller::Cpu.as_str().as_bytes());
        let is_memory = same_bytes(word, Controller::Memory.as_str().as_bytes());
        let is_io = same_bytes(word, Controller::Io.as_str().as_bytes());
        found = Found {
            cpu: found.cpu || is_cpu,
            memory: found.memory || is_memory,
            io: found.io || is_io,
        };
        proof {
            assert forall|controller: Controller|
                found.has(controller) == lists_before(line@, controller, end + 1) by {
                lemma_next_word(line@, start as int, end as int, controller);
                assert(before.has(controller) == lists_before(line@, controller, start as int));
                assert(found.has(controller) == (before.has(controller) || word@ == encode_utf8(
                    controller.name(),
                )));
            }
        }
        if end == line.len() {
            break ;
        }
        start = end + 1;
    }
    found
}

/// Whether the words of `enabled`, taken apart at each single space, name
/// every controller of `controllers`. Words that are no controller's name are
/// passed over; a word with anything else in it, a line break too, is such a
/// word.
pub fn is_subset(enabled: &str, controllers: &[Controller]) -> (r: bool)
    ensures
        r == covers(enabled.spec_bytes(), controllers@),
{
    let found = scan(enabled.as_bytes());
    let mut k: usize = 0;
    while k < controllers.len()
        invariant
            0 <= k <= controllers@.len(),
            forall|controller: Controller|
                found.has(controller) == lists(enabled.spec_bytes(), controller),
            forall|j: int| 0 <= j < k ==> lists(enabled.spec_bytes(), #[trigger] controllers@[j]),
        decreases controllers@.len() - k,
    {
        let present = match controllers[k] {
            Controller::Cpu => found.cpu,
            Controller::Memory => found.memory,
            Controller::Io => found.io,
        };
        if !present {
            assert(found.has(controllers@[k as int]) == present);
            return false;
        }
        assert(found.has(controllers@[k as int]));
        k = k + 1;
    }
    true
}

/// Checks that the cgroup at `cgroup_dir`, whose `cgroup.controllers` file
/// reads `enabled`, offers every controller of `controllers`.
pub fn is_enabled(cgroup_dir: &str, enabled: &str, controllers: &[Controller]) -> (r: Result<
    (),
    Error,
>)
    ensures
        covers(enabled.spec_bytes(), controllers@) ==> r is Ok,
        !covers(enabled.spec_bytes(), controllers@) ==> (r matches Err(Error::NotEnabled(dir))
            && dir@ == cgroup_dir@),
{
    if is_subset(enabled, controllers) {
        Ok(())
    } else {
        Err(Error::NotEnabled(cgroup_dir.to_owned()))
    }
}

/// The write that switches `controllers` on for the children of the cgroup at
/// `cgroup_dir`, whatever that cgroup offers.
pub fn enable_subtree_unchecked(cgroup_dir: &str, controllers: &[Controller]) -> (write: FileWrite)
    ensures
        write.deep_view() == (
            file_in(cgroup_dir@, SUBTREE_CONTROL@),
            prefixed(controllers@, '+'),
        ),
{
    FileWrite { path: join(cgroup_dir, SUBTREE_CONTROL), contents: prepend_with(controllers, '+') }
}

/// The write that switches `controllers` on for the children of the cgroup at
/// `cgroup_dir`, whose `cgroup.controllers` file reads `enabled`; or
/// [`Error::NotEnabled`] with the cgroup's path, where that file does not name
/// them all.
pub fn enable_subtree(cgroup_dir: &str, enabled: &str, controllers: &[Controller]) -> (r: Result<
    FileWrite,
    Error,
>)
    ensures
        covers(enabled.spec_bytes(), controllers@) ==> (r matches Ok(write) && write.deep_view() == (
            file_in(cgroup_dir@, SUBTREE_CONTROL@),
            prefixed(controllers@, '+'),
        )),
        !covers(enabled.spec_bytes(), controllers@) ==> (r matches Err(Error::NotEnabled(dir))
            && dir@ == cgroup_dir@),
{
    match is_enabled(cgroup_dir, enabled, controllers) {
        Ok(()) => Ok(enable_subtree_unchecked(cgroup_dir, controllers)),
        Err(err) => Err(err),
    }
}

/// Whether the kernel takes `weight` as a CPU weight.
pub open spec fn valid_cpu_weight(weight: u32) -> bool {
    1 <= weight <= 10000
}

/// What is written for a CPU limit: nothing where there is none, else the
/// weight in decimal, to `cpu.weight`.
pub open spec fn cpu_writes(dir: Seq<char>, cpu: Option<CpuControl>) -> Seq<(Seq<char>, Seq<char>)> {
    match cpu {
        None => Seq::empty(),
        Some(cpu) => seq![(file_in(dir, CPU_WEIGHT@), ascii(decimal(cpu.cpu_weight as nat)))],
    }
}

/// The weight that makes a CPU limit unusable, if it is.
pub open spec fn refused_weight(cpu: Option<CpuControl>) -> Option<u32> {
    match cpu {
        Some(cpu) if !valid_cpu_weight(cpu.cpu_weight) => Some(cpu.cpu_weight),
        _ => None,
    }
}

/// The writes that set the CPU weight of the cgroup at `cgroup_dir`: none
/// where the request carries no CPU limit, else the weight in decimal to
/// `cpu.weight`. A weight outside 1 to 10000 is refused.
pub fn set_cpu_control(cgroup_dir: &str, job_req: &JobRequest) -> (r: Result<Vec<FileWrite>, Error>)
    ensures
        match refused_weight(job_req.cpu_control) {
            Some(weight) => r == Err::<Vec<FileWrite>, Error>(Error::InvalidCpuWeight(weight)),
            None => r matches Ok(writes) && writes.deep_view() == cpu_writes(
                cgroup_dir@,
                job_req.cpu_control,
            ),
        },
{
    let mut writes: Vec<FileWrite> = Vec::new();
    if let Some(cpu_control) = &job_req.cpu_control {
        let weight = cpu_control.cpu_weight;
        if weight == 0 || weight > 10000 {
            return Err(Error::InvalidCpuWeight(weight));
        }
        let mut contents = String::new();
        push_decimal(&mut contents, weight as u64);
        writes.push(FileWrite { path: join(cgroup_dir, CPU_WEIGHT), contents });
        proof {
            assert(Seq::<char>::empty() + ascii(decimal(weight as nat)) =~= ascii(
                decimal(weight as nat),
            ));
            assert(writes.deep_view() =~= seq![
                (file_in(cgroup_dir@, CPU_WEIGHT@), ascii(decimal(weight as nat))),
            ]);
        }
    } else {
        proof {
            assert(writes.deep_view() =~= Seq::<(Seq<char>, Seq<char>)>::empty());
        }
    }
    Ok(writes)
}

/// What is written for a memory limit: nothing where there is none, else
/// `mem_high` to `memory.high` and then `mem_max` to `memory.max`.
pub open spec fn mem_writes(dir: Seq<char>, mem: Option<MemControl>) -> Seq<(Seq<char>, Seq<char>)> {
    match mem {
        None => Seq::empty(),
        Some(mem) => seq![
            (file_in(dir, MEM_HIGH@), ascii(decimal(mem.mem_high as nat))),
            (file_in(dir, MEM_MAX@), ascii(decimal(mem.mem_max as nat))),
        ],
    }
}

/// The writes that set the memory ceilings of the cgroup at `cgroup_dir`:
/// none where the request carries no memory limit, else `mem_high` to
/// `memory.high` and then `mem_max` to `memory.max`, both in decimal.
pub fn set_mem_control(cgroup_dir: &str, job_req: &JobRequest) -> (writes: Vec<FileWrite>)
    ensures
        writes.deep_view() == mem_writes(cgroup_dir@, job_req.mem_control),
{
    let mut writes: Vec<FileWrite> = Vec::new();
    if let Some(memory_control) = &job_req.mem_control {
        let mut high = String::new();
        push_decimal(&mut high, memory_control.mem_high);
        let mut max = String::new();
        push_decimal(&mut max, memory_control.mem_max);
        writes.push(FileWrite { path: join(cgroup_dir, MEM_HIGH), contents: high });
        writes.push(FileWrite { path: join(cgroup_dir, MEM_MAX), contents: max });
        proof {
            let empty = Seq::<char>::empty();
            assert(empty + ascii(decimal(memory_control.mem_high as nat)) =~= ascii(
                decimal(memory_control.mem_high as nat),
            ));
            assert(empty + ascii(decimal(memory_control.mem_max as nat)) =~= ascii(
                decimal(memory_control.mem_max as nat),
            ));
            assert(writes.deep_view() =~= seq![
                (
                    file_in(cgroup_dir@, MEM_HIGH@),
                    ascii(decimal(memory_control.mem_high as nat)),
                ),
                (file_in(cgroup_dir@, MEM_MAX@), ascii(decimal(memory_control.mem_max as nat))),
            ]);
        }
    } else {
        proof {
            assert(writes.deep_view() =~= Seq::<(Seq<char>, Seq<char>)>::empty());
        }
    }
    writes
}

/// The line that limits a device's bandwidth in `io.max`: the device's minor
/// number, a colon, its major number, then the read and the write ceiling.
pub open spec fn io_line(minor: u32, major: u32, rbps_max: u64, wbps_max: u64) -> Seq<char> {
    ascii(decimal(minor as nat)) + seq![':'] + ascii(decimal(major as nat)) + " rbps="@ + ascii(
        decimal(rbps_max as nat),
    ) + " wbps="@ + ascii(decimal(wbps_max as nat))
}

/// What is written for an I/O limit: nothing where there is none, else one
/// line to `io.max`.
pub open spec fn io_writes(dir: Seq<char>, io: Option<IoControl>) -> Seq<(Seq<char>, Seq<char>)> {
    match io {
        None => Seq::empty(),
        Some(io) => seq![
            (file_in(dir, IO_MAX@), io_line(io.minor, io.major, io.rbps_max, io.wbps_max)),
        ],
    }
}

/// The writes that set the I/O limits of the cgroup at `cgroup_dir`: none
/// where the request carries no I/O limit, else one line to `io.max`.
pub fn set_io_control(cgroup_dir: &str, job_req: &JobRequest) -> (writes: Vec<FileWrite>)
    ensures
        writes.deep_view() == io_writes(cgroup_dir@, job_req.io_control),
{
    let mut writes: Vec<FileWrite> = Vec::new();
    if let Some(io_control) = &job_req.io_control {
        let mut contents = String::new();
        push_decimal(&mut contents, io_control.minor as u64);
        push_char(&mut contents, ':');
        push_decimal(&mut contents, io_control.major as u64);
        contents.append(" rbps=");
        push_decimal(&mut contents, io_control.rbps_max);
        contents.append(" wbps=");
        push_decimal(&mut contents, io_control.wbps_max);
        proof {
            let minor = ascii(decimal(io_control.minor as nat));
            assert(Seq::<char>::empty() + minor =~= minor);
            assert(minor.push(':') =~= minor + seq![':']);
        }
        writes.push(FileWrite { path: join(cgroup_dir, IO_MAX), contents });
        proof {
            assert(writes.deep_view() =~= seq![
                (
                    file_in(cgroup_dir@, IO_MAX@),
                    io_line(
                        io_control.minor,
                        io_control.major,
                        io_control.rbps_max,
                        io_control.wbps_max,
                    ),
                ),
            ]);
        }
    } else {
        proof {
            assert(writes.deep_view() =~= Seq::<(Seq<char>, Seq<char>)>::empty());
        }
    }
    writes
}

} // verus!
