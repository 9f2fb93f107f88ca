//! Clipboard file transfer: the stream requests that fetch incoming files,
//! the data they bring back, and which local files may be served.

use vstd::prelude::*;
use std::collections::{HashMap, HashSet};
use crate::formats::chars_of;

verus! {

broadcast use vstd::std_specs::hash::group_hash_axioms;

/// What a file contents stream asks for.
#[derive(Debug, Clone, Copy, PartialEq, Eq, Structural)]
pub enum RequestKind {
    Size,
    Data,
}

/// A file offered by the other side.
pub struct FileDescriptor {
    pub name: String,
    pub file_size: Option<u64>,
}

/// A file contents request to send.
#[derive(Debug, Clone, Copy, PartialEq, Eq, Structural)]
pub struct ContentsRequest {
    pub stream_id: u32,
    pub index: u32,
    pub kind: RequestKind,
    pub position: u64,
    pub requested_size: u32,
}

/// The requests for the files `sizes` (their announced sizes), with stream
/// ids from `first`: per file, its size and then its data.
pub open spec fn spec_requests(sizes: Seq<Option<u64>>, first: nat) -> Seq<ContentsRequest> {
    Seq::new(
        2 * sizes.len(),
        |k: int|
            if k % 2 == 0 {
                ContentsRequest {
                    stream_id: (first + k) as u32,
                    index: (k / 2) as u32,
                    kind: RequestKind::Size,
                    position: 0,
                    requested_size: 8,
                }
            } else {
                ContentsRequest {
                    stream_id: (first + k) as u32,
                    index: (k / 2) as u32,
                    kind: RequestKind::Data,
                    position: 0,
                    requested_size: (match sizes[k / 2] { Some(s) => s, None => 0 }) as u32,
                }
            },
    )
}

/// A received name that could escape the transfer directory: it holds `..`
/// or starts with a path separator.
pub open spec fn is_suspicious_name(name: Seq<char>) -> bool {
    (exists|i: int| 0 <= i < name.len() - 1 && #[trigger] name[i] == '.' && name[i + 1] == '.')
        || (name.len() > 0 && (name[0] == '/' || name[0] == '\\'))
}

/// Whether a received file name could escape the transfer directory.
pub fn is_suspicious_name_str(name: &str) -> (b: bool)
    ensures
        b == is_suspicious_name(name@),
{
    let cs = chars_of(name);
    if cs.len() > 0 && (cs[0] == '/' || cs[0] == '\\') {
        return true;
    }
    let mut i: usize = 0;
    while i < cs.len() && cs.len() - i > 1
        invariant
            cs@ == name@,
            i <= cs@.len(),
            forall|j: int| 0 <= j < i && j < cs@.len() - 1 ==> !(#[trigger] cs@[j] == '.' && cs@[j + 1] == '.'),
        decreases cs.len() - i,
    {
        if cs[i] == '.' && cs[i + 1] == '.' {
            return true;
        }
        i = i + 1;
    }
    false
}

/// Transfer state of the clipboard's file list.
pub struct FileTransferManager {
    local_files: Vec<String>,
    incoming_descriptors: Vec<FileDescriptor>,
    incoming_data: HashMap<u32, Vec<u8>>,
    incoming_complete: HashSet<u32>,
    stream_to_index: HashMap<u32, (u32, RequestKind)>,
    temp_dir: String,
    max_file_size: u64,
    locked: bool,
    next_stream_id: u32,
}

/// Bytes still expected of a file with announced size `size`.
pub open spec fn expected_len(size: Option<u64>) -> nat {
    match size {
        Some(s) => s as nat,
        None => 0,
    }
}

impl FileTransferManager {
    pub fn new(temp_dir: String, max_file_size: u64) -> (m: Self)
        ensures
            m.local_files()@.len() == 0,
            m.incoming_count() == 0,
            m.data_view() == Map::<u32, Seq<u8>>::empty(),
            m.complete_view() == Set::<u32>::empty(),
            m.streams_view() == Map::<u32, (u32, RequestKind)>::empty(),
            !m.is_locked_spec(),
            m.next_stream() == 1,
            m.max_size() == max_file_size,
            m.temp_dir_view() == temp_dir@,
    {
        FileTransferManager {
            local_files: Vec::new(),
            incoming_descriptors: Vec::new(),
            incoming_data: HashMap::new(),
            incoming_complete: HashSet::new(),
            stream_to_index: HashMap::new(),
            temp_dir,
            max_file_size,
            locked: false,
            next_stream_id: 1,
        }
    }

    pub closed spec fn local_files(&self) -> Vec<String> {
        self.local_files
    }

    pub closed spec fn incoming_count(&self) -> nat {
        self.incoming_descriptors@.len()
    }

    pub closed spec fn incoming_size(&self, i: int) -> Option<u64> {
        self.incoming_descriptors@[i].file_size
    }

    pub closed spec fn incoming_name(&self, i: int) -> Seq<char> {
        self.incoming_descriptors@[i].name@
    }

    /// Received bytes, by file index.
    pub closed spec fn data_view(&self) -> Map<u32, Seq<u8>> {
        self.incoming_data@.map_values(|v: Vec<u8>| v@)
    }

    pub closed spec fn complete_view(&self) -> Set<u32> {
        self.incoming_complete@
    }

    pub closed spec fn streams_view(&self) -> Map<u32, (u32, RequestKind)> {
        self.stream_to_index@
    }

    pub closed spec fn next_stream(&self) -> u32 {
        self.next_stream_id
    }

    pub closed spec fn max_size(&self) -> u64 {
        self.max_file_size
    }

    /// Whether a lock is held on the clipboard data.
    pub fn is_locked(&self) -> (b: bool)
        ensures
            b == self.is_locked_spec(),
    {
        self.locked
    }

    pub closed spec fn is_locked_spec(&self) -> bool {
        self.locked
    }

    /// The directory incoming files are written to.
    pub fn temp_dir(&self) -> (d: &String)
        ensures
            d@ == self.temp_dir_view(),
    {
        &self.temp_dir
    }

    pub closed spec fn temp_dir_view(&self) -> Seq<char> {
        self.temp_dir@
    }

    /// Largest file served or accepted, in bytes.
    pub fn max_file_size(&self) -> (m: u64)
        ensures
            m == self.max_size(),
    {
        self.max_file_size
    }

    /// Whether no received data is held.
    pub fn incoming_data_is_empty(&self) -> (b: bool)
        ensures
            b == self.data_view().is_empty(),
    {
        proof {
            assert(self.data_view().dom() =~= self.incoming_data@.dom());
        }
        self.incoming_data.is_empty()
    }

    pub fn set_local_files(&mut self, paths: Vec<String>)
        ensures
            final(self).local_files()@ == paths@,
    {
        self.local_files = paths;
    }

    /// The local file at `index` of the offered list.
    pub fn local_file(&self, index: u32) -> (r: Option<&String>)
        ensures
            match r {
                Some(p) => index < self.local_files()@.len() && *p == self.local_files()@[index as int],
                None => index >= self.local_files()@.len(),
            },
    {
        if (index as usize) < self.local_files.len() {
            Some(&self.local_files[index as usize])
        } else {
            None
        }
    }
}

/// File contents request flag: the size is asked for.
pub const FILECONTENTS_SIZE: u32 = 0x1;

/// File contents request flag: a byte range is asked for.
pub const FILECONTENTS_RANGE: u32 = 0x2;

/// What answering a file contents request takes.
#[derive(Debug, Clone, Copy, PartialEq, Eq, Structural)]
pub enum ContentsStep {
    /// Answer with an error.
    Error,
    /// Look up the size of the local file at this index.
    QuerySize(u32),
    /// Read the asked range of the local file at this index.
    ReadRange(u32),
}

/// Stream entries the requests for `n` files add, from stream id `first`.
pub open spec fn new_streams(first: nat, n: nat) -> Map<u32, (u32, RequestKind)> {
    Map::new(
        |sid: u32| first <= sid < first + 2 * n,
        |sid: u32|
            (
                ((sid - first) / 2) as u32,
                if (sid - first) % 2 == 0 { RequestKind::Size } else { RequestKind::Data },
            ),
    )
}

/// Received files to write: for each offered file, in order, that has
/// data and a name that cannot escape the directory, its name and data.
pub open spec fn flushed_files(names: Seq<Seq<char>>, data: Map<u32, Seq<u8>>, k: nat) -> Seq<(Seq<char>, Seq<u8>)>
    decreases k,
{
    if k == 0 {
        seq![]
    } else {
        let prev = flushed_files(names, data, (k - 1) as nat);
        let i = (k - 1) as u32;
        if data.contains_key(i) && !is_suspicious_name(names[k - 1]) {
            prev.push((names[k - 1], data[i]))
        } else {
            prev
        }
    }
}

impl FileTransferManager {
    /// The state's invariant: no more offered files than `u32` can index.
    pub closed spec fn wf(&self) -> bool {
        self.incoming_descriptors@.len() <= u32::MAX
    }

    pub closed spec fn incoming_names(&self) -> Seq<Seq<char>> {
        self.incoming_descriptors@.map_values(|d: FileDescriptor| d.name@)
    }

    pub closed spec fn incoming_sizes(&self) -> Seq<Option<u64>> {
        self.incoming_descriptors@.map_values(|d: FileDescriptor| d.file_size)
    }

    /// Number of offered files.
    pub fn incoming_len(&self) -> (n: usize)
        ensures
            n == self.incoming_count(),
    {
        self.incoming_descriptors.len()
    }

    /// The next stream id to hand out.
    pub fn next_stream_id(&self) -> (n: u32)
        ensures
            n == self.next_stream(),
    {
        self.next_stream_id
    }

    /// The files the other side offers; all earlier progress is dropped.
    pub fn set_incoming_descriptors(&mut self, descriptors: Vec<FileDescriptor>)
        requires
            descriptors@.len() <= u32::MAX,
        ensures
            final(self).wf(),
            final(self).incoming_count() == descriptors@.len(),
            final(self).incoming_names() == descriptors@.map_values(|d: FileDescriptor| d.name@),
            final(self).incoming_sizes() == descriptors@.map_values(|d: FileDescriptor| d.file_size),
            final(self).data_view() == Map::<u32, Seq<u8>>::empty(),
            final(self).complete_view() == Set::<u32>::empty(),
            final(self).streams_view() == Map::<u32, (u32, RequestKind)>::empty(),
            final(self).next_stream() == old(self).next_stream(),
            final(self).is_locked_spec() == old(self).is_locked_spec(),
            final(self).max_size() == old(self).max_size(),
    {
        self.incoming_data.clear();
        self.incoming_complete.clear();
        self.stream_to_index.clear();
        self.incoming_descriptors = descriptors;
        proof {
            assert(self.data_view() =~= Map::<u32, Seq<u8>>::empty());
        }
    }

    /// A size request and a data request for every offered file, with
    /// fresh consecutive stream ids, each remembered for its file.
    pub fn generate_contents_requests(&mut self) -> (requests: Vec<ContentsRequest>)
        requires
            old(self).wf(),
            old(self).next_stream() + 2 * old(self).incoming_count() <= u32::MAX,
        ensures
            final(self).wf(),
            requests@ == spec_requests(old(self).incoming_sizes(), old(self).next_stream() as nat),
            final(self).next_stream() == old(self).next_stream() + 2 * old(self).incoming_count(),
            final(self).streams_view() == old(self).streams_view().union_prefer_right(
                new_streams(old(self).next_stream() as nat, old(self).incoming_count()),
            ),
            final(self).incoming_count() == old(self).incoming_count(),
            final(self).incoming_names() == old(self).incoming_names(),
            final(self).incoming_sizes() == old(self).incoming_sizes(),
            final(self).data_view() == old(self).data_view(),
            final(self).complete_view() == old(self).complete_view(),
            final(self).is_locked_spec() == old(self).is_locked_spec(),
            final(self).max_size() == old(self).max_size(),
    {
        let ghost first = self.next_stream_id as nat;
        let ghost sizes = self.incoming_sizes();
        let ghost streams0 = self.stream_to_index@;
        let ghost descs = self.incoming_descriptors@;
        let ghost raw0 = self.incoming_data@;
        let ghost complete0 = self.incoming_complete@;
        let ghost locked0 = self.locked;
        let ghost max0 = self.max_file_size;
        let n = self.incoming_descriptors.len();
        let mut requests: Vec<ContentsRequest> = Vec::new();
        let mut i: usize = 0;
        while i < n
            invariant
                n == self.incoming_descriptors@.len(),
                n <= u32::MAX,
                first + 2 * n <= u32::MAX,
                i <= n,
                sizes == self.incoming_sizes(),
                self.incoming_descriptors@ == descs,
                self.incoming_data@ == raw0,
                self.incoming_complete@ == complete0,
                self.locked == locked0,
                self.max_file_size == max0,
                self.next_stream_id == first + 2 * i,
                requests@ == spec_requests(sizes, first).take(2 * i),
                self.stream_to_index@ == streams0.union_prefer_right(new_streams(first, i as nat)),
            decreases n - i,
        {
            let size_stream = self.next_stream_id;
            self.next_stream_id = self.next_stream_id + 1;
            self.stream_to_index.insert(size_stream, (i as u32, RequestKind::Size));
            requests.push(ContentsRequest {
                stream_id: size_stream,
                index: i as u32,
                kind: RequestKind::Size,
                position: 0,
                requested_size: 8,
            });
            let data_stream = self.next_stream_id;
            self.next_stream_id = self.next_stream_id + 1;
            self.stream_to_index.insert(data_stream, (i as u32, RequestKind::Data));
            let size: u32 = match self.incoming_descriptors[i].file_size {
                Some(s) => #[verifier::truncate] (s as u32),
                None => 0,
            };
            requests.push(ContentsRequest {
                stream_id: data_stream,
                index: i as u32,
                kind: RequestKind::Data,
                position: 0,
                requested_size: size,
            });
            proof {
                assert(sizes[i as int] == self.incoming_descriptors@[i as int].file_size);
                let full = spec_requests(sizes, first);
                assert((2 * i as int) % 2 == 0 && (2 * i as int) / 2 == i);
                assert((2 * i as int + 1) % 2 == 1 && (2 * i as int + 1) / 2 == i);
                assert(requests@ =~= full.take(2 * i + 2));
                assert forall|sid: u32| #![trigger new_streams(first, (i + 1) as nat).dom().contains(sid)]
                    new_streams(first, (i + 1) as nat).dom().contains(sid) <==> (new_streams(first, i as nat).dom().contains(sid) || sid == size_stream || sid == data_stream) by {}
                assert(self.stream_to_index@ =~= streams0.union_prefer_right(new_streams(first, (i + 1) as nat)));
            }
            i = i + 1;
        }
        proof {
            assert(spec_requests(sizes, first).take(2 * n as int) =~= spec_requests(sizes, first));
        }
        requests
    }

    /// Data arriving on a stream: appended to its file when the stream asked
    /// for data and brought some; the file is complete once it holds its
    /// announced size. Unknown streams and size answers change nothing.
    pub fn handle_contents_response(&mut self, stream_id: u32, data: &[u8])
        requires
            old(self).wf(),
        ensures
            final(self).wf(),
            final(self).incoming_count() == old(self).incoming_count(),
            final(self).incoming_names() == old(self).incoming_names(),
            final(self).incoming_sizes() == old(self).incoming_sizes(),
            final(self).streams_view() == old(self).streams_view(),
            final(self).next_stream() == old(self).next_stream(),
            final(self).is_locked_spec() == old(self).is_locked_spec(),
            final(self).max_size() == old(self).max_size(),
            match old(self).streams_view().get(stream_id) {
                Some((idx, RequestKind::Data)) => if data@.len() == 0 {
                    final(self).data_view() == old(self).data_view() && final(self).complete_view() == old(self).complete_view()
                } else {
                    let prev = if old(self).data_view().contains_key(idx) { old(self).data_view()[idx] } else { Seq::<u8>::empty() };
                    let now = prev + data@;
                    &&& final(self).data_view() == old(self).data_view().insert(idx, now)
                    &&& final(self).complete_view() == (if idx < old(self).incoming_count()
                        && now.len() >= (expected_len(old(self).incoming_sizes()[idx as int]) as usize) {
                        old(self).complete_view().insert(idx)
                    } else {
                        old(self).complete_view()
                    })
                },
                _ => final(self).data_view() == old(self).data_view() && final(self).complete_view() == old(self).complete_view(),
            },
    {
        let (file_index, kind) = match self.stream_to_index.get(&stream_id) {
            Some(e) => *e,
            None => {
                return;
            },
        };
        if kind == RequestKind::Size {
            return;
        }
        if data.len() == 0 {
            return;
        }
        let ghost d0 = self.incoming_data@;
        let mut buf: Vec<u8> = match self.incoming_data.remove(&file_index) {
            Some(v) => v,
            None => Vec::new(),
        };
        let ghost prev = buf@;
        let mut j: usize = 0;
        while j < data.len()
            invariant
                j <= data@.len(),
                buf@ == prev + data@.take(j as int),
            decreases data.len() - j,
        {
            buf.push(data[j]);
            assert(buf@ =~= prev + data@.take(j + 1));
            j = j + 1;
        }
        assert(data@.take(data@.len() as int) =~= data@);
        let received = buf.len();
        self.incoming_data.insert(file_index, buf);
        proof {
            assert(self.data_view() =~= old(self).data_view().insert(file_index, prev + data@));
        }
        if (file_index as usize) < self.incoming_descriptors.len() {
            let expected: usize = match self.incoming_descriptors[file_index as usize].file_size {
                Some(s) => s as usize,
                None => 0,
            };
            proof {
                assert(self.incoming_sizes()[file_index as int] == self.incoming_descriptors@[file_index as int].file_size);
            }
            if received >= expected {
                self.incoming_complete.insert(file_index);
            }
        }
    }

    /// Every offered file has all its data (and there is at least one).
    pub fn all_incoming_complete(&self) -> (b: bool)
        ensures
            b == (self.incoming_count() > 0 && self.complete_view().len() == self.incoming_count()),
    {
        self.incoming_descriptors.len() > 0 && self.incoming_complete.len() == self.incoming_descriptors.len()
    }

    /// Takes the received files to write, in offer order, leaving out names
    /// that could escape the directory; the offer and its streams are then
    /// forgotten.
    pub fn take_incoming_files(&mut self) -> (files: Vec<(String, Vec<u8>)>)
        requires
            old(self).wf(),
        ensures
            final(self).wf(),
            files@.map_values(|f: (String, Vec<u8>)| (f.0@, f.1@)) == flushed_files(
                old(self).incoming_names(),
                old(self).data_view(),
                old(self).incoming_count(),
            ),
            forall|i: u32| i < old(self).incoming_count() ==> !#[trigger] final(self).data_view().contains_key(i),
            forall|i: u32| i >= old(self).incoming_count() ==> #[trigger] final(self).data_view().contains_key(i)
                == old(self).data_view().contains_key(i),
            final(self).incoming_count() == 0,
            final(self).complete_view() == Set::<u32>::empty(),
            final(self).streams_view() == Map::<u32, (u32, RequestKind)>::empty(),
            final(self).next_stream() == old(self).next_stream(),
            final(self).is_locked_spec() == old(self).is_locked_spec(),
            final(self).max_size() == old(self).max_size(),
    {
        let ghost names = self.incoming_names();
        let ghost data0 = self.data_view();
        let ghost raw0 = self.incoming_data@;
        let ghost descs = self.incoming_descriptors@;
        let ghost next0 = self.next_stream_id;
        let ghost locked0 = self.locked;
        let ghost max0 = self.max_file_size;
        let n = self.incoming_descriptors.len();
        let mut files: Vec<(String, Vec<u8>)> = Vec::new();
        let mut i: usize = 0;
        while i < n
            invariant
                n == descs.len(),
                self.incoming_descriptors@ == descs,
                names == descs.map_values(|d: FileDescriptor| d.name@),
                data0 == raw0.map_values(|v: Vec<u8>| v@),
                self.next_stream_id == next0,
                self.locked == locked0,
                self.max_file_size == max0,
                n <= u32::MAX,
                i <= n,
                files@.map_values(|f: (String, Vec<u8>)| (f.0@, f.1@)) == flushed_files(names, data0, i as nat),
                forall|k: u32| k < i ==> !#[trigger] self.incoming_data@.contains_key(k),
                forall|k: u32| k >= i ==> (#[trigger] self.incoming_data@.contains_key(k) == raw0.contains_key(k))
                    && (raw0.contains_key(k) ==> self.incoming_data@[k] == raw0[k]),
            decreases n - i,
        {
            let ghost before_files = files@;
            let ghost before = files@.map_values(|f: (String, Vec<u8>)| (f.0@, f.1@));
            let ghost m_before = self.incoming_data@;
            let key: u32 = i as u32;
            let removed = self.incoming_data.remove(&key);
            proof {
                assert(self.incoming_data@ == m_before.remove(key));
                assert(names[i as int] == descs[i as int].name@);
                assert(data0.contains_key(key) == raw0.contains_key(key));
                assert(((i + 1) as nat - 1) as u32 == key);
                assert(flushed_files(names, data0, (i + 1) as nat) == (if data0.contains_key(key)
                    && !is_suspicious_name(names[i as int]) {
                    flushed_files(names, data0, i as nat).push((names[i as int], data0[key]))
                } else {
                    flushed_files(names, data0, i as nat)
                }));
            }
            match removed {
                Some(d) => {
                    proof {
                        assert(raw0.contains_key(key));
                        assert(d == raw0[key]);
                        assert(data0[key] == d@);
                    }
                    if !is_suspicious_name_str(self.incoming_descriptors[i].name.as_str()) {
                        let name = self.incoming_descriptors[i].name.clone();
                        files.push((name, d));
                        proof {
                            assert(files@ == before_files.push((name, d)));
                            assert(files@.map_values(|f: (String, Vec<u8>)| (f.0@, f.1@)) =~= before.push(
                                (names[i as int], data0[key]),
                            ));
                        }
                    } else {
                        proof {
                            assert(files@.map_values(|f: (String, Vec<u8>)| (f.0@, f.1@)) == before);
                        }
                    }
                },
                None => {
                    proof {
                        assert(!raw0.contains_key(key));
                    }
                },
            }
            proof {
                assert forall|k: u32| k < i + 1 implies !#[trigger] self.incoming_data@.contains_key(k) by {
                    if k < i {
                        assert(!m_before.contains_key(k));
                    }
                }
                assert forall|k: u32| k >= i + 1 implies (#[trigger] self.incoming_data@.contains_key(k)
                    == raw0.contains_key(k)) && (raw0.contains_key(k) ==> self.incoming_data@[k] == raw0[k]) by {
                    assert(k != key);
                    assert(k >= i);
                    assert(m_before.contains_key(k) == raw0.contains_key(k));
                    assert(self.incoming_data@.contains_key(k) == m_before.contains_key(k));
                    if raw0.contains_key(k) {
                        assert(m_before[k] == raw0[k]);
                        assert(self.incoming_data@[k] == m_before[k]);
                    }
                }
            }
            i = i + 1;
        }
        self.incoming_descriptors = Vec::new();
        self.incoming_complete.clear();
        self.stream_to_index.clear();
        files
    }

    /// A lock on the clipboard data.
    pub fn lock(&mut self)
        ensures
            final(self).is_locked_spec(),
            final(self).data_view() == old(self).data_view(),
            final(self).incoming_count() == old(self).incoming_count(),
    {
        self.locked = true;
    }

    /// The lock released: received data and stream progress are dropped.
    pub fn unlock(&mut self)
        ensures
            !final(self).is_locked_spec(),
            final(self).data_view() == Map::<u32, Seq<u8>>::empty(),
            final(self).complete_view() == Set::<u32>::empty(),
            final(self).streams_view() == Map::<u32, (u32, RequestKind)>::empty(),
            final(self).incoming_count() == old(self).incoming_count(),
            final(self).wf() == old(self).wf(),
    {
        self.locked = false;
        self.incoming_data.clear();
        self.incoming_complete.clear();
        self.stream_to_index.clear();
        proof {
            assert(self.data_view() =~= Map::<u32, Seq<u8>>::empty());
        }
    }

    /// Everything forgotten: local and incoming files and all progress.
    pub fn clear(&mut self)
        ensures
            final(self).wf(),
            final(self).local_files()@.len() == 0,
            final(self).incoming_count() == 0,
            final(self).data_view() == Map::<u32, Seq<u8>>::empty(),
            final(self).complete_view() == Set::<u32>::empty(),
            final(self).streams_view() == Map::<u32, (u32, RequestKind)>::empty(),
            final(self).is_locked_spec() == old(self).is_locked_spec(),
    {
        self.local_files = Vec::new();
        self.incoming_descriptors = Vec::new();
        self.incoming_data.clear();
        self.incoming_complete.clear();
        self.stream_to_index.clear();
        proof {
            assert(self.data_view() =~= Map::<u32, Seq<u8>>::empty());
        }
    }

    /// The first step of answering a request for local file `index`: an
    /// error for an unknown file or unknown flags; else the size lookup or
    /// the range read.
    pub fn contents_request_step(&self, index: u32, flags: u32) -> (s: ContentsStep)
        ensures
            s == (if index >= self.local_files()@.len() {
                ContentsStep::Error
            } else if flags & FILECONTENTS_SIZE == FILECONTENTS_SIZE {
                ContentsStep::QuerySize(index)
            } else if flags & FILECONTENTS_RANGE == FILECONTENTS_RANGE {
                ContentsStep::ReadRange(index)
            } else {
                ContentsStep::Error
            }),
    {
        if (index as usize) >= self.local_files.len() {
            ContentsStep::Error
        } else if flags & FILECONTENTS_SIZE == FILECONTENTS_SIZE {
            ContentsStep::QuerySize(index)
        } else if flags & FILECONTENTS_RANGE == FILECONTENTS_RANGE {
            ContentsStep::ReadRange(index)
        } else {
            ContentsStep::Error
        }
    }

    /// The size answer for a local file of `file_len` bytes: refused above
    /// the size limit.
    pub fn size_answer(&self, file_len: u64) -> (r: Option<u64>)
        ensures
            r == (if file_len > self.max_size() { None } else { Some(file_len) }),
    {
        if file_len > self.max_file_size {
            None
        } else {
            Some(file_len)
        }
    }
}

/// A range of a file may be read only when the file is within the limit.
pub fn file_within_limit(file_len: u64, max_file_size: u64) -> (b: bool)
    ensures
        b == (file_len <= max_file_size),
{
    file_len <= max_file_size
}

/// Every request routes back: the stream id of request `k` is among the
/// streams the requests add, and maps to that request's file index and
/// kind, so each response lands on the file it asked for.
pub proof fn lemma_requests_route_back(sizes: Seq<Option<u64>>, first: nat, k: int)
    requires
        0 <= k < 2 * sizes.len(),
        first + 2 * sizes.len() <= u32::MAX,
    ensures
        new_streams(first, sizes.len()).dom().contains(spec_requests(sizes, first)[k].stream_id),
        new_streams(first, sizes.len())[spec_requests(sizes, first)[k].stream_id] == (
            spec_requests(sizes, first)[k].index,
            spec_requests(sizes, first)[k].kind,
        ),
{
    let r = spec_requests(sizes, first)[k];
    assert(r.stream_id == first + k);
    assert((r.stream_id - first) == k);
}

/// Distinct requests use distinct streams.
pub proof fn lemma_request_streams_distinct(sizes: Seq<Option<u64>>, first: nat, j: int, k: int)
    requires
        0 <= j < k < 2 * sizes.len(),
        first + 2 * sizes.len() <= u32::MAX,
    ensures
        spec_requests(sizes, first)[j].stream_id != spec_requests(sizes, first)[k].stream_id,
{
}

} // verus!
