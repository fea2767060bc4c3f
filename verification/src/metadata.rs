//! The metadata summary of a recorded profile: machine, processes and
//! binaries, folded packet by packet out of a profile archive.  The
//! surrounding program reads the archive and hands each packet's fields in
//! as plain values; rendering the summary is likewise its business.

use vstd::prelude::*;

verus! {

/// The recorded machine.
#[derive(Clone, PartialEq, Eq, Debug)]
pub struct MachineInfo {
    pub architecture: Vec<u8>,
}

/// One profiled process.
#[derive(Clone, PartialEq, Eq, Debug)]
pub struct Process {
    pub pid: u32,
    pub executable: Vec<u8>,
}

/// One binary the profiled processes had loaded.  The build id is kept as
/// lowercase hexadecimal text.
#[derive(Clone, PartialEq, Eq, Debug)]
pub struct Binary {
    pub path: Vec<u8>,
    pub debuglink: Option<Vec<u8>>,
    pub build_id: Option<Vec<u8>>,
}

/// The whole summary.
#[derive(Clone, PartialEq, Eq, Debug)]
pub struct Metadata {
    pub machine_info: Option<MachineInfo>,
    pub processes: Vec<Process>,
    pub binaries: Vec<Binary>,
}

impl Default for Metadata {
    /// An empty summary.
    fn default() -> (r: Metadata)
        ensures
            r.machine_info is None,
            r.processes@ == Seq::<Process>::empty(),
            r.binaries@ == Seq::<Binary>::empty(),
    {
        Metadata { machine_info: None, processes: Vec::new(), binaries: Vec::new() }
    }
}

/// The length of `s` up to (not including) its first NUL byte.
pub open spec fn nul_free_len(s: Seq<u8>, i: int) -> int
    decreases s.len() - i,
{
    if i < 0 || i >= s.len() {
        s.len() as int
    } else if s[i] == 0 {
        i
    } else {
        nul_free_len(s, i + 1)
    }
}

/// The lowercase hexadecimal digit of a value below sixteen.
pub open spec fn hex_digit(n: int) -> u8 {
    if n < 10 {
        (48 + n) as u8
    } else {
        (87 + n) as u8
    }
}

/// Two lowercase hexadecimal digits per byte, high nibble first.
pub open spec fn hex_of(bytes: Seq<u8>) -> Seq<u8> {
    Seq::new(
        (2 * bytes.len()) as nat,
        |k: int|
            if k % 2 == 0 {
                hex_digit((bytes[k / 2] >> 4u8) as int)
            } else {
                hex_digit((bytes[k / 2] & 0xF) as int)
            },
    )
}

/// The index of the last binary recorded under `id`, if any.
pub open spec fn last_index_of(ids: Seq<u64>, id: u64) -> Option<int>
    decreases ids.len(),
{
    if ids.len() == 0 {
        None
    } else if ids.last() == id {
        Some(ids.len() - 1)
    } else {
        last_index_of(ids.drop_last(), id)
    }
}

/// Folds archive packets into a `Metadata` summary.  `ids` records, for
/// each binary in order, the archive id it was announced under, so that a
/// later build-id packet finds its binary.
pub struct MetadataBuilder {
    pub metadata: Metadata,
    /// For each binary, in order, the archive id it was announced under.
    pub ids: Vec<u64>,
    /// Whether at least one packet was folded in: an archive yielding no
    /// packet at all is not a valid profile.
    pub valid: bool,
}

impl MetadataBuilder {
    /// The ids column, for the contracts below.
    pub open spec fn ids(&self) -> Seq<u64> {
        self.ids@
    }

    /// The ids column names exactly the recorded binaries, in order.
    pub open spec fn wf(&self) -> bool {
        self.ids().len() == self.metadata.binaries@.len()
    }

    /// Whether at least one packet was folded in.
    pub open spec fn spec_valid(&self) -> bool {
        self.valid
    }

    /// A builder that has seen nothing.
    pub fn new() -> (r: MetadataBuilder)
        ensures
            r.metadata.machine_info is None,
            r.metadata.processes@ == Seq::<Process>::empty(),
            r.metadata.binaries@ == Seq::<Binary>::empty(),
            r.ids() == Seq::<u64>::empty(),
            !r.spec_valid(),
            r.wf(),
    {
        MetadataBuilder { metadata: Metadata::default(), ids: Vec::new(), valid: false }
    }

    /// Whether any packet was folded in.
    pub fn is_valid(&self) -> (r: bool)
        ensures
            r == self.spec_valid(),
    {
        self.valid
    }

    /// A machine-info packet: the latest one wins.
    pub fn apply_machine_info(&mut self, architecture: Vec<u8>)
        ensures
            final(self).metadata.machine_info == Some(MachineInfo { architecture: architecture }),
            final(self).metadata.processes == old(self).metadata.processes,
            final(self).metadata.binaries == old(self).metadata.binaries,
            final(self).ids() == old(self).ids(),
            final(self).spec_valid(),
            old(self).wf() ==> final(self).wf(),
    {
        self.metadata.machine_info = Some(MachineInfo { architecture });
        self.valid = true;
    }

    /// A process-info packet appends a process.
    pub fn apply_process_info(&mut self, pid: u32, executable: Vec<u8>)
        ensures
            final(self).metadata.processes@ == old(self).metadata.processes@.push(
                Process { pid, executable: executable },
            ),
            final(self).metadata.machine_info == old(self).metadata.machine_info,
            final(self).metadata.binaries == old(self).metadata.binaries,
            final(self).ids() == old(self).ids(),
            final(self).spec_valid(),
            old(self).wf() ==> final(self).wf(),
    {
        self.metadata.processes.push(Process { pid, executable });
        self.valid = true;
    }

    /// A binary-info packet appends a binary.  The debug link is text up
    /// to its first NUL byte; an empty one means none.
    pub fn apply_binary_info(&mut self, id: u64, path: Vec<u8>, debuglink: &[u8])
        ensures
            ({
                let cut = nul_free_len(debuglink@, 0);
                let link = if cut == 0 {
                    None
                } else {
                    Some(debuglink@.subrange(0, cut))
                };
                &&& final(self).metadata.binaries@.len() == old(self).metadata.binaries@.len() + 1
                &&& final(self).metadata.binaries@.last().path == path
                &&& final(self).metadata.binaries@.last().build_id is None
                &&& (match final(self).metadata.binaries@.last().debuglink {
                    Some(l) => link matches Some(s) && l@ == s,
                    None => link is None,
                })
                &&& final(self).metadata.binaries@.take(
                    old(self).metadata.binaries@.len() as int,
                ) == old(self).metadata.binaries@
                &&& final(self).ids() == old(self).ids().push(id)
                &&& final(self).metadata.machine_info == old(self).metadata.machine_info
                &&& final(self).metadata.processes == old(self).metadata.processes
                &&& final(self).spec_valid()
                &&& (old(self).wf() ==> final(self).wf())
            }),
    {
        let cut = nul_free_length(debuglink);
        let link = if cut == 0 {
            None
        } else {
            let mut l: Vec<u8> = Vec::new();
            let mut i: usize = 0;
            while i < cut
                invariant
                    0 <= i <= cut <= debuglink@.len(),
                    l@ =~= debuglink@.subrange(0, i as int),
                decreases cut - i,
            {
                l.push(debuglink[i]);
                i = i + 1;
                proof {
                    assert(l@ =~= debuglink@.subrange(0, i as int));
                }
            }
            Some(l)
        };
        self.ids.push(id);
        self.metadata.binaries.push(Binary { path, debuglink: link, build_id: None });
        self.valid = true;
        proof {
            assert(final(self).metadata.binaries@.take(old(self).metadata.binaries@.len() as int)
                =~= old(self).metadata.binaries@);
        }
    }

    /// A build-id packet records the id, as lowercase hex, on the binary
    /// last announced under the same archive id; without one it is
    /// ignored.
    pub fn apply_build_id(&mut self, id: u64, build_id: &[u8])
        requires
            old(self).wf(),
        ensures
            ({
                let b0 = old(self).metadata.binaries@;
                let b1 = final(self).metadata.binaries@;
                match last_index_of(old(self).ids(), id) {
                    Some(j) => {
                        &&& b1.len() == b0.len()
                        &&& forall|k: int| 0 <= k < b0.len() && k != j ==> b1[k] == b0[k]
                        &&& b1[j].path == b0[j].path
                        &&& b1[j].debuglink == b0[j].debuglink
                        &&& (match b1[j].build_id {
                            Some(h) => h@ == hex_of(build_id@),
                            None => false,
                        })
                    },
                    None => final(self).metadata.binaries == old(self).metadata.binaries,
                }
            }),
            final(self).metadata.machine_info == old(self).metadata.machine_info,
            final(self).metadata.processes == old(self).metadata.processes,
            final(self).ids() == old(self).ids(),
            final(self).spec_valid(),
            final(self).wf(),
    {
        self.valid = true;
        let ghost ids0 = self.ids@;
        let n = self.ids.len();
        let mut found: Option<usize> = None;
        let mut k: usize = 0;
        proof {
            assert(ids0.take(0) =~= Seq::<u64>::empty());
        }
        while k < n
            invariant
                0 <= k <= n,
                n == ids0.len(),
                ids0 == self.ids@,
                match found {
                    Some(j) => last_index_of(ids0.take(k as int), id) == Some(j as int) && j < k,
                    None => last_index_of(ids0.take(k as int), id) is None,
                },
            decreases n - k,
        {
            proof {
                reveal_last_index(ids0, id, k as int + 1);
            }
            if self.ids[k] == id {
                found = Some(k);
            }
            k = k + 1;
        }
        proof {
            assert(ids0.take(n as int) =~= ids0);
        }
        let j = match found {
            Some(j) => j,
            None => {
                return;
            },
        };
        let hex = to_hex(build_id);
        let entry = self.metadata.binaries.remove(j);
        self.metadata.binaries.insert(
            j,
            Binary { path: entry.path, debuglink: entry.debuglink, build_id: Some(hex) },
        );
        proof {
            assert forall|m: int|
                0 <= m < old(self).metadata.binaries@.len() && m != j implies self
                .metadata.binaries@[m] == old(self).metadata.binaries@[m] by {}
        }
    }
}

/// One step of the last-index scan, seen from the tail end.
proof fn reveal_last_index(ids: Seq<u64>, id: u64, j: int)
    requires
        0 <= j <= ids.len(),
    ensures
        j > 0 ==> last_index_of(ids.take(j), id) == (if ids[j - 1] == id {
            Some(j - 1)
        } else {
            last_index_of(ids.take(j - 1), id)
        }),
{
    if j > 0 {
        assert(ids.take(j).len() == j);
        assert(ids.take(j).last() == ids[j - 1]);
        assert(ids.take(j).drop_last() =~= ids.take(j - 1));
    }
}

/// The length of the bytes before the first NUL.
fn nul_free_length(s: &[u8]) -> (r: usize)
    ensures
        r == nul_free_len(s@, 0),
        r <= s@.len(),
{
    let n = s.len();
    let mut i: usize = 0;
    while i < n
        invariant
            0 <= i <= n == s@.len(),
            nul_free_len(s@, 0) == nul_free_len(s@, i as int),
        decreases n - i,
    {
        if s[i] == 0 {
            return i;
        }
        i = i + 1;
    }
    n
}

/// Render bytes as lowercase hexadecimal text, two digits per byte.
fn to_hex(bytes: &[u8]) -> (r: Vec<u8>)
    ensures
        r@ == hex_of(bytes@),
{
    let n = bytes.len();
    let mut r: Vec<u8> = Vec::new();
    let mut i: usize = 0;
    while i < n
        invariant
            0 <= i <= n == bytes@.len(),
            r@ =~= hex_of(bytes@).take(2 * i as int),
        decreases n - i,
    {
        let b = bytes[i];
        let hi = b >> 4u8;
        let lo = b & 0xF;
        proof {
            assert(b >> 4u8 <= 15 && b & 0xF <= 15) by (bit_vector);
        }
        r.push(if hi < 10 {
            48 + hi
        } else {
            87 + hi
        });
        r.push(if lo < 10 {
            48 + lo
        } else {
            87 + lo
        });
        i = i + 1;
        proof {
            assert(r@ =~= hex_of(bytes@).take(2 * i as int));
        }
    }
    proof {
        assert(hex_of(bytes@).take(2 * n as int) =~= hex_of(bytes@));
    }
    r
}

} // verus!
