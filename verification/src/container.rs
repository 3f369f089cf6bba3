use vstd::prelude::*;

use crate::vma::VMA;

verus! {

/// Memory protection of a mapped region.
#[derive(Clone, Copy, Debug, PartialEq, Eq, Structural)]
pub struct Prot {
    pub r: bool,
    pub w: bool,
    pub x: bool,
}

/// All three permissions at once: the protection a raw mapping gets.
pub fn prot_all() -> (p: Prot)
    ensures
        p == (Prot { r: true, w: true, x: true }),
{
    Prot { r: true, w: true, x: true }
}

/// Byte order of the container's words.
#[derive(Clone, Copy, Debug, PartialEq, Eq, Structural)]
pub enum Endian {
    Big,
    Little,
}

/// Architecture tag carried by a container or guessed by a probe.
#[allow(non_camel_case_types)]
#[derive(Clone, Copy, Debug, PartialEq, Eq, Structural)]
pub enum Arch {
    X86,
    X86_64,
    ARM,
    AArch64,
    PowerPC,
    UnknownArch,
}

/// One contiguous mapped region: a virtual extent `[vmaddr, vmaddr + vmsize)`
/// backed by the file extent `[fileoff, fileoff + filesize)`. Bytes of the
/// virtual extent beyond `filesize` are implicit zero fill.
#[derive(Clone, Debug, PartialEq, Eq)]
pub struct Segment {
    pub vmaddr: VMA,
    pub vmsize: u64,
    pub fileoff: u64,
    pub filesize: u64,
    pub name: Option<String>,
    pub prot: Prot,
    /// File-backed content of the region, when it has any; holds at least
    /// `filesize` bytes.
    pub data: Option<Vec<u8>>,
    /// Format-private back-reference, opaque to this crate.
    pub seg_idx: Option<usize>,
}

impl Segment {
    /// The segment invariant: the file-backed extent never exceeds the
    /// virtual extent, and a region with file-backed content carries a data
    /// buffer exposing at least the file-backed bytes.
    pub open spec fn wf(self) -> bool {
        &&& self.filesize <= self.vmsize
        &&& self.data is Some ==> self.data->Some_0@.len() >= self.filesize
        &&& self.filesize > 0 ==> self.data is Some
    }
}

/// One probed executable/object: its architecture, pointer size and byte
/// order, the load-time `segments`, the informational `sections` (never used
/// for translation), and optionally the whole backing file.
#[derive(Clone, Debug, PartialEq, Eq)]
pub struct Container {
    pub arch: Arch,
    pub pointer_size: u64,
    pub endian: Endian,
    pub segments: Vec<Segment>,
    pub sections: Vec<Segment>,
    pub whole_buf: Option<Vec<u8>>,
}

impl Container {
    /// The container invariant: a pointer size of 0, 4 or 8 bytes, and every
    /// segment well-formed.
    pub open spec fn wf(self) -> bool {
        &&& self.pointer_size == 0 || self.pointer_size == 4 || self.pointer_size == 8
        &&& forall|i: int|
            0 <= i < self.segments@.len() ==> (#[trigger] self.segments@[i]).wf()
    }

    /// Decides the container invariant, for callers that obtained the
    /// container from outside the crate's constructors.
    pub fn check_wf(&self) -> (r: bool)
        ensures
            r == self.wf(),
    {
        if !(self.pointer_size == 0 || self.pointer_size == 4 || self.pointer_size == 8) {
            return false;
        }
        let n = self.segments.len();
        let mut i: usize = 0;
        while i < n
            invariant
                i <= n,
                n == self.segments@.len(),
                forall|j: int| 0 <= j < i ==> (#[trigger] self.segments@[j]).wf(),
            decreases n - i,
        {
            let s = &self.segments[i];
            let ok_size = s.filesize <= s.vmsize;
            let ok_data = match &s.data {
                Some(d) => d.len() as u64 >= s.filesize,
                None => s.filesize == 0,
            };
            if !(ok_size && ok_data) {
                proof {
                    assert(!self.segments@[i as int].wf());
                }
                return false;
            }
            i = i + 1;
        }
        true
    }
}

/// A candidate recognition produced by probing: a human-readable description,
/// an architecture guess, a likelihood flag (display ordering only), and the
/// canonical argument vector that reconstructs the candidate via `create`.
#[derive(Clone, Debug, PartialEq, Eq)]
pub struct ProbeResult {
    pub desc: String,
    pub arch: Arch,
    pub likely: bool,
    pub cmd: Vec<String>,
}

/// The failure categories of container operations.
#[derive(Clone, Copy, Debug, PartialEq, Eq, Structural)]
pub enum ErrorKind {
    /// Malformed option input; the message is user-facing.
    InvalidArgs,
    /// The operation requires a container format the probed one does not have.
    FormatMismatch,
    /// An address or offset outside every segment.
    Unmapped,
    /// Requested bytes lie in the implicit-zero tail of a segment.
    ZeroFill,
    /// A relocation displacement out of range or misaligned.
    Unencodable,
    /// A relocation kind with no implemented encoding.
    Unsupported,
    /// A file could not be opened, mapped or written.
    IO,
}

/// A failure, with its category and a user-facing message.
#[derive(Clone, Debug, PartialEq, Eq)]
pub struct Error {
    pub kind: ErrorKind,
    pub message: String,
}

} // verus!
