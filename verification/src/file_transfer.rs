//! Chunked file transfer between peers: the sender cuts files into chunks,
//! the receiver stores them by position and puts the files back together.

use vstd::prelude::*;

use crate::assoc::{assoc_map, has_key, keys_unique, lemma_assoc_get, lemma_assoc_absent,
    lemma_assoc_has_key, lemma_assoc_update, lemma_assoc_remove, lemma_assoc_push};
use crate::text::{decimal, decimal_string, str_eq};
use crate::webrtc_error::IPChatWebRTCError;
use crate::webrtc_types::FileMetadata;

verus! {

/// Size of every chunk but the last of a file.
pub const CHUNK_SIZE: usize = 16384;

/// The sum of the declared sizes of `files`.
pub open spec fn total_size(files: Seq<FileMetadata>) -> nat
    decreases files.len(),
{
    if files.len() == 0 {
        0
    } else {
        total_size(files.drop_last()) + (files.last().size as nat)
    }
}

/// The bytes of chunk `ci` of a file: the `ci`-th run of `CHUNK_SIZE` bytes,
/// or what is left of the file.
pub open spec fn chunk_bytes(data: Seq<u8>, ci: nat) -> Seq<u8> {
    let start = ci * (CHUNK_SIZE as nat);
    let end = if start + (CHUNK_SIZE as nat) <= data.len() {
        (start + (CHUNK_SIZE as nat)) as int
    } else {
        data.len() as int
    };
    data.subrange(start as int, end)
}

/// A chunk as a value: the file it belongs to, its position and its bytes.
pub struct ChunkView {
    pub file_index: nat,
    pub chunk_index: nat,
    pub data: Seq<u8>,
}

/// How much of file `fi` is left from chunk `ci` on (a termination measure).
pub open spec fn pending(data: Seq<Seq<u8>>, fi: nat, ci: nat) -> nat {
    if fi < data.len() && ci * (CHUNK_SIZE as nat) < data[fi as int].len() {
        (data[fi as int].len() - ci * (CHUNK_SIZE as nat)) as nat
    } else {
        0
    }
}

/// The chunks that remain to be sent of `data`, from chunk `ci` of file `fi`
/// on: file by file, and in each file chunk by chunk. An empty file has no chunk.
pub open spec fn chunks_from(data: Seq<Seq<u8>>, fi: nat, ci: nat) -> Seq<ChunkView>
    decreases data.len() - fi, pending(data, fi, ci),
{
    if fi >= data.len() {
        Seq::empty()
    } else if ci * (CHUNK_SIZE as nat) >= data[fi as int].len() {
        chunks_from(data, fi + 1, 0)
    } else {
        seq![ChunkView { file_index: fi, chunk_index: ci, data: chunk_bytes(data[fi as int], ci) }]
            + chunks_from(data, fi, ci + 1)
    }
}

/// The bytes of every file, as values.
pub open spec fn data_view(data: Seq<Vec<u8>>) -> Seq<Seq<u8>> {
    data.map_values(|v: Vec<u8>| v@)
}

/// Progress of a transfer, in bytes.
pub struct FileTransferProgress {
    pub transfer_id: String,
    pub bytes_transferred: u64,
    pub total_bytes: u64,
}

impl FileTransferProgress {
    pub fn transfer_id(&self) -> (s: String)
        ensures
            s@ == self.transfer_id@,
    {
        self.transfer_id.clone()
    }

    pub fn bytes_transferred(&self) -> (n: u64)
        ensures
            n == self.bytes_transferred,
    {
        self.bytes_transferred
    }

    pub fn total_bytes(&self) -> (n: u64)
        ensures
            n == self.total_bytes,
    {
        self.total_bytes
    }
}

/// A chunk of file data on the wire.
pub struct FileChunk {
    pub transfer_id: String,
    pub file_index: usize,
    pub chunk_index: usize,
    pub data: Vec<u8>,
}

impl FileChunk {
    pub open spec fn view_chunk(&self) -> ChunkView {
        ChunkView {
            file_index: self.file_index as nat,
            chunk_index: self.chunk_index as nat,
            data: self.data@,
        }
    }
}

/// The sending side of a transfer.
pub struct FileTransfer {
    transfer_id: String,
    files: Vec<FileMetadata>,
    current_file_index: usize,
    current_chunk_index: usize,
    bytes_transferred: u64,
    total_bytes: u64,
    file_data: Vec<Vec<u8>>,
}

impl FileTransfer {
    pub closed spec fn id_view(&self) -> Seq<char> {
        self.transfer_id@
    }

    pub closed spec fn files_view(&self) -> Seq<FileMetadata> {
        self.files@
    }

    pub closed spec fn bytes_sent(&self) -> u64 {
        self.bytes_transferred
    }

    pub closed spec fn total(&self) -> u64 {
        self.total_bytes
    }

    pub closed spec fn data(&self) -> Seq<Seq<u8>> {
        data_view(self.file_data@)
    }

    /// Where the next chunk will be looked for: a file and a chunk of it.
    pub closed spec fn cursor(&self) -> (nat, nat) {
        (self.current_file_index as nat, self.current_chunk_index as nat)
    }

    /// The chunks that `next_chunk` will still hand out, in order.
    pub open spec fn remaining(&self) -> Seq<ChunkView> {
        chunks_from(self.data(), self.cursor().0, self.cursor().1)
    }

    /// A transfer of `files`, named `transfer_id`, with no data prepared yet.
    pub fn new(transfer_id: String, files: Vec<FileMetadata>) -> (t: FileTransfer)
        requires
            total_size(files@) <= u64::MAX,
        ensures
            t.id_view() == transfer_id@,
            t.files_view() == files@,
            t.bytes_sent() == 0,
            t.total() == total_size(files@),
            t.data() == Seq::<Seq<u8>>::empty(),
            t.cursor() == (0nat, 0nat),
    {
        let mut total: u64 = 0;
        let mut i: usize = 0;
        while i < files.len()
            invariant
                i <= files@.len(),
                total == total_size(files@.subrange(0, i as int)),
                total_size(files@) <= u64::MAX,
            decreases files@.len() - i,
        {
            proof {
                lemma_total_size_prefix(files@, i as nat);
                lemma_total_size_monotone(files@, (i + 1) as nat);
            }
            total = total + files[i].size;
            i = i + 1;
        }
        assert(files@.subrange(0, files@.len() as int) =~= files@);
        let file_data: Vec<Vec<u8>> = Vec::new();
        let t = FileTransfer {
            transfer_id,
            files,
            current_file_index: 0,
            current_chunk_index: 0,
            bytes_transferred: 0,
            total_bytes: total,
            file_data,
        };
        assert(t.data() =~= Seq::<Seq<u8>>::empty());
        t
    }

    pub fn id(&self) -> (s: String)
        ensures
            s@ == self.id_view(),
    {
        self.transfer_id.clone()
    }

    pub fn file_count(&self) -> (n: usize)
        ensures
            n == self.files_view().len(),
    {
        self.files.len()
    }

    /// Bytes handed out so far, of the declared total.
    pub fn progress(&self) -> (p: FileTransferProgress)
        ensures
            p.transfer_id@ == self.id_view(),
            p.bytes_transferred == self.bytes_sent(),
            p.total_bytes == self.total(),
    {
        FileTransferProgress {
            transfer_id: self.transfer_id.clone(),
            bytes_transferred: self.bytes_transferred,
            total_bytes: self.total_bytes,
        }
    }

    /// Whether the bytes handed out have reached the declared total.
    pub fn is_complete(&self) -> (b: bool)
        ensures
            b == (self.bytes_sent() >= self.total()),
    {
        self.bytes_transferred >= self.total_bytes
    }
}

impl FileTransfer {
    /// Hands over the bytes of the files, one buffer per file, in the order of
    /// the metadata. Refused when the counts differ. Where the next chunk is
    /// looked for does not move.
    pub fn prepare_file_data(&mut self, data: Vec<Vec<u8>>) -> (r: Result<(), IPChatWebRTCError>)
        ensures
            final(self).id_view() == old(self).id_view(),
            final(self).files_view() == old(self).files_view(),
            final(self).bytes_sent() == old(self).bytes_sent(),
            final(self).total() == old(self).total(),
            final(self).cursor() == old(self).cursor(),
            r is Ok <==> data@.len() == old(self).files_view().len(),
            r is Ok ==> final(self).data() == data_view(data@),
            r is Err ==> final(self).data() == old(self).data(),
            r matches Err(e) ==> e matches IPChatWebRTCError::FileTransferError(m) && m@ == count_mismatch_text(),
    {
        if data.len() != self.files.len() {
            return Err(IPChatWebRTCError::FileTransferError(
                String::from_str("File data count doesn't match metadata count"),
            ));
        }
        self.file_data = data;
        Ok(())
    }

    /// Hands out the next chunk of the files: the next `CHUNK_SIZE` bytes of
    /// the current file, or of the next file that still has bytes, and counts
    /// them as transferred. `None` once every byte has been handed out.
    pub fn next_chunk(&mut self) -> (r: Option<FileChunk>)
        requires
            old(self).remaining().len() > 0 ==> old(self).bytes_sent() + old(self).remaining()[0].data.len()
                <= u64::MAX,
        ensures
            final(self).id_view() == old(self).id_view(),
            final(self).files_view() == old(self).files_view(),
            final(self).total() == old(self).total(),
            final(self).data() == old(self).data(),
            match r {
                None => {
                    &&& old(self).remaining().len() == 0
                    &&& final(self).remaining().len() == 0
                    &&& final(self).bytes_sent() == old(self).bytes_sent()
                },
                Some(c) => {
                    &&& old(self).remaining().len() > 0
                    &&& c.view_chunk() == old(self).remaining()[0]
                    &&& c.transfer_id@ == old(self).id_view()
                    &&& final(self).remaining() == old(self).remaining().drop_first()
                    &&& final(self).bytes_sent() == old(self).bytes_sent() + c.data@.len()
                },
            },
    {
        let ghost rem = self.remaining();
        let ghost bytes0 = self.bytes_transferred;
        loop
            invariant
                self.remaining() == rem,
                self.bytes_transferred == bytes0,
                rem == old(self).remaining(),
                bytes0 == old(self).bytes_sent(),
                self.transfer_id@ == old(self).id_view(),
                self.files@ == old(self).files_view(),
                self.total_bytes == old(self).total(),
                self.data() == old(self).data(),
                rem.len() > 0 ==> bytes0 + rem[0].data.len() <= u64::MAX,
            decreases self.file_data@.len() - self.current_file_index,
                pending(self.data(), self.current_file_index as nat, self.current_chunk_index as nat),
        {
            if self.current_file_index >= self.file_data.len() {
                return None;
            }
            let fi = self.current_file_index;
            let len = self.file_data[fi].len();
            let start_opt = self.current_chunk_index.checked_mul(CHUNK_SIZE);
            let at_end = match start_opt {
                None => true,
                Some(s) => s >= len,
            };
            assert(self.data()[fi as int] == self.file_data@[fi as int]@);
            if at_end {
                self.current_file_index = fi + 1;
                self.current_chunk_index = 0;
            } else {
                let start = start_opt.unwrap();
                let end = if len - start > CHUNK_SIZE {
                    start + CHUNK_SIZE
                } else {
                    len
                };
                let piece = vstd::slice::slice_subrange(self.file_data[fi].as_slice(), start, end);
                let chunk_data = vstd::slice::slice_to_vec(piece);
                let ci = self.current_chunk_index;
                let chunk = FileChunk {
                    transfer_id: self.transfer_id.clone(),
                    file_index: fi,
                    chunk_index: ci,
                    data: chunk_data,
                };
                assert(chunk.data@ =~= chunk_bytes(self.data()[fi as int], ci as nat));
                self.bytes_transferred = self.bytes_transferred + (end - start) as u64;
                self.current_chunk_index = ci + 1;
                return Some(chunk);
            }
        }
    }
}

/// The detail of the error that refuses data whose count differs from the metadata.
pub open spec fn count_mismatch_text() -> Seq<char> {
    "File data count doesn't match metadata count"@
}

// ---------------------------------------------------------------------------
// Receiving side
// ---------------------------------------------------------------------------

/// The chunks of one file received so far, as (position, bytes) pairs in
/// increasing order of position.
pub open spec fn sorted_keys(s: Seq<(nat, Seq<u8>)>) -> bool {
    forall|i: int, j: int| 0 <= i < j < s.len() ==> s[i].0 < s[j].0
}

/// Stores `v` at position `k`: replaces the bytes already there, or puts the
/// pair where the order of positions wants it.
pub open spec fn upsert(s: Seq<(nat, Seq<u8>)>, k: nat, v: Seq<u8>) -> Seq<(nat, Seq<u8>)>
    decreases s.len(),
{
    if s.len() == 0 {
        seq![(k, v)]
    } else if s[0].0 == k {
        seq![(k, v)] + s.drop_first()
    } else if s[0].0 > k {
        seq![(k, v)] + s
    } else {
        seq![s[0]] + upsert(s.drop_first(), k, v)
    }
}

/// The bytes of the chunks, one after the other.
pub open spec fn flatten(s: Seq<(nat, Seq<u8>)>) -> Seq<u8>
    decreases s.len(),
{
    if s.len() == 0 {
        Seq::empty()
    } else {
        flatten(s.drop_last()) + s.last().1
    }
}

/// What the receiver knows of one transfer.
pub struct TransferView {
    pub files: Seq<FileMetadata>,
    /// For each file that has received a chunk: its chunks, by position.
    pub chunks: Map<nat, Seq<(nat, Seq<u8>)>>,
    pub bytes_received: nat,
    pub total_bytes: nat,
}

/// A transfer of `files` that has received nothing yet.
pub open spec fn started(files: Seq<FileMetadata>) -> TransferView {
    TransferView { files, chunks: Map::empty(), bytes_received: 0, total_bytes: total_size(files) }
}

/// A transfer after it has received chunk `c`.
pub open spec fn receive_step(t: TransferView, c: ChunkView) -> TransferView {
    let before = if t.chunks.contains_key(c.file_index) {
        t.chunks[c.file_index]
    } else {
        Seq::empty()
    };
    TransferView {
        chunks: t.chunks.insert(c.file_index, upsert(before, c.chunk_index, c.data)),
        bytes_received: t.bytes_received + c.data.len(),
        ..t
    }
}

/// A transfer after it has received the chunks `cs`, in order.
pub open spec fn received_all(t: TransferView, cs: Seq<ChunkView>) -> TransferView
    decreases cs.len(),
{
    if cs.len() == 0 {
        t
    } else {
        received_all(receive_step(t, cs[0]), cs.drop_first())
    }
}

/// The first file, from `f` on, that has received no chunk.
pub open spec fn missing_from(t: TransferView, f: nat) -> Option<nat>
    decreases t.files.len() - f,
{
    if f >= t.files.len() {
        None
    } else if !t.chunks.contains_key(f) {
        Some(f)
    } else {
        missing_from(t, f + 1)
    }
}

/// The files put back together: each file is its chunks in order of
/// position; a file with no chunk at all is an error that names it.
pub open spec fn assembled(t: TransferView) -> Result<Seq<Seq<u8>>, nat> {
    match missing_from(t, 0) {
        Some(f) => Err(f),
        None => Ok(Seq::new(t.files.len(), |f: int| flatten(t.chunks[f as nat]))),
    }
}

/// The detail of the error for an unknown transfer.
pub open spec fn not_found_text() -> Seq<char> {
    "Transfer not found"@
}

/// The detail of the error for a file with no chunk.
pub open spec fn missing_text(f: nat) -> Seq<char> {
    "Missing chunks for file "@ + decimal(f)
}

/// A received chunk, stored by position.
pub struct Piece {
    pub index: usize,
    pub data: Vec<u8>,
}

struct FileChunks {
    file_index: usize,
    pieces: Vec<Piece>,
}

struct TransferState {
    files: Vec<FileMetadata>,
    chunks: Vec<FileChunks>,
    bytes_received: u64,
    total_bytes: u64,
}

struct TransferEntry {
    id: String,
    state: TransferState,
}

/// The receiving side: the transfers under way, by id.
pub struct FileReceiver {
    transfers: Vec<TransferEntry>,
}

pub open spec fn pieces_view(p: Seq<Piece>) -> Seq<(nat, Seq<u8>)> {
    p.map_values(|x: Piece| (x.index as nat, x.data@))
}

spec fn chunk_pairs(fc: Seq<FileChunks>) -> Seq<(nat, Seq<(nat, Seq<u8>)>)> {
    fc.map_values(|x: FileChunks| (x.file_index as nat, pieces_view(x.pieces@)))
}

impl TransferState {
    spec fn view(&self) -> TransferView {
        TransferView {
            files: self.files@,
            chunks: assoc_map(chunk_pairs(self.chunks@)),
            bytes_received: self.bytes_received as nat,
            total_bytes: self.total_bytes as nat,
        }
    }

    spec fn wf(&self) -> bool {
        &&& keys_unique(chunk_pairs(self.chunks@))
        &&& forall|j: int| 0 <= j < self.chunks@.len() ==> sorted_keys(#[trigger] pieces_view(self.chunks@[j].pieces@))
    }
}

spec fn entry_pairs(t: Seq<TransferEntry>) -> Seq<(Seq<char>, TransferView)> {
    t.map_values(|e: TransferEntry| (e.id@, e.state.view()))
}

impl FileReceiver {
    /// The transfers under way, by id.
    pub closed spec fn transfers_view(&self) -> Map<Seq<char>, TransferView> {
        assoc_map(entry_pairs(self.transfers@))
    }

    /// Ids are distinct and every transfer's chunks are kept by position.
    pub closed spec fn wf(&self) -> bool {
        &&& keys_unique(entry_pairs(self.transfers@))
        &&& forall|i: int| 0 <= i < self.transfers@.len() ==> (#[trigger] self.transfers@[i]).state.wf()
    }

    /// A receiver with no transfer.
    pub fn new() -> (r: FileReceiver)
        ensures
            r.wf(),
            r.transfers_view() == Map::<Seq<char>, TransferView>::empty(),
    {
        let r = FileReceiver { transfers: Vec::new() };
        assert(entry_pairs(r.transfers@) =~= Seq::empty());
        r
    }

    fn find(&self, id: &str) -> (r: Option<usize>)
        requires
            self.wf(),
        ensures
            match r {
                Some(i) => i < self.transfers@.len() && self.transfers@[i as int].id@ == id@,
                None => !self.transfers_view().contains_key(id@),
            },
    {
        let mut i: usize = 0;
        while i < self.transfers.len()
            invariant
                i <= self.transfers@.len(),
                forall|j: int| 0 <= j < i ==> self.transfers@[j].id@ != id@,
            decreases self.transfers@.len() - i,
        {
            if str_eq(self.transfers[i].id.as_str(), id) {
                return Some(i);
            }
            i = i + 1;
        }
        proof {
            let pairs = entry_pairs(self.transfers@);
            assert forall|j: int| 0 <= j < pairs.len() implies pairs[j].0 != id@ by {
                assert(pairs[j].0 == self.transfers@[j].id@);
            }
            lemma_assoc_absent(pairs, id@);
        }
        None
    }

    /// Starts (or restarts from nothing) the transfer `transfer_id` of `files`.
    pub fn start_transfer(&mut self, transfer_id: String, files: Vec<FileMetadata>)
        requires
            old(self).wf(),
            total_size(files@) <= u64::MAX,
        ensures
            final(self).wf(),
            final(self).transfers_view() == old(self).transfers_view().insert(transfer_id@, started(files@)),
    {
        let total = sum_sizes(&files);
        let state = TransferState { files, chunks: Vec::new(), bytes_received: 0, total_bytes: total };
        assert(chunk_pairs(state.chunks@) =~= Seq::empty());
        assert(state.view() == started(files@)) by {
            assert(state.view().chunks =~= Map::<nat, Seq<(nat, Seq<u8>)>>::empty());
        }
        let found = self.find(transfer_id.as_str());
        let ghost pairs = entry_pairs(self.transfers@);
        match found {
            Some(i) => {
                let mut entry = self.transfers.remove(i);
                entry.state = state;
                self.transfers.insert(i, entry);
                proof {
                    assert(entry_pairs(self.transfers@) =~= pairs.update(i as int, (pairs[i as int].0, started(files@))));
                    lemma_assoc_update(pairs, i as int, started(files@));
                }
            },
            None => {
                let entry = TransferEntry { id: transfer_id, state };
                self.transfers.push(entry);
                proof {
                    lemma_assoc_has_key(pairs, entry.id@);
                    assert(entry_pairs(self.transfers@) =~= pairs.push((entry.id@, started(files@))));
                    lemma_assoc_push(pairs, entry.id@, started(files@));
                }
            },
        }
    }
}

/// Where `upsert` puts the pair: at the first position `i` whose key is not
/// smaller than `k`, replacing the pair there when its key is `k`.
pub proof fn lemma_upsert_at(s: Seq<(nat, Seq<u8>)>, k: nat, v: Seq<u8>, i: int)
    requires
        sorted_keys(s),
        0 <= i <= s.len(),
        forall|j: int| 0 <= j < i ==> s[j].0 < k,
        i < s.len() ==> s[i].0 >= k,
    ensures
        upsert(s, k, v) == (if i < s.len() && s[i].0 == k {
            s.update(i, (k, v))
        } else {
            s.insert(i, (k, v))
        }),
        sorted_keys(upsert(s, k, v)),
    decreases s.len(),
{
    if i == 0 {
        if s.len() == 0 {
            assert(upsert(s, k, v) =~= s.insert(0, (k, v)));
        } else if s[0].0 == k {
            assert(upsert(s, k, v) =~= s.update(0, (k, v)));
        } else {
            assert(upsert(s, k, v) =~= s.insert(0, (k, v)));
        }
    } else {
        let t = s.drop_first();
        lemma_upsert_at(t, k, v, i - 1);
        if i < s.len() && s[i].0 == k {
            assert(upsert(s, k, v) =~= s.update(i, (k, v)));
        } else {
            assert(upsert(s, k, v) =~= s.insert(i, (k, v)));
        }
    }
    lemma_placed_sorted(s, k, v, i);
}

proof fn lemma_placed_sorted(s: Seq<(nat, Seq<u8>)>, k: nat, v: Seq<u8>, i: int)
    requires
        sorted_keys(s),
        0 <= i <= s.len(),
        forall|j: int| 0 <= j < i ==> s[j].0 < k,
        i < s.len() ==> s[i].0 >= k,
    ensures
        sorted_keys(if i < s.len() && s[i].0 == k {
            s.update(i, (k, v))
        } else {
            s.insert(i, (k, v))
        }),
{
    if i < s.len() && s[i].0 == k {
        let r = s.update(i, (k, v));
        assert forall|a: int, b: int| 0 <= a < b < r.len() implies r[a].0 < r[b].0 by {
            assert(r[a].0 == s[a].0 && r[b].0 == s[b].0);
        }
    } else {
        let r = s.insert(i, (k, v));
        assert forall|a: int, b: int| 0 <= a < b < r.len() implies r[a].0 < r[b].0 by {
            if b < i {
            } else if b == i {
            } else if a < i {
                assert(r[b] == s[b - 1]);
            } else if a == i {
                assert(r[b] == s[b - 1]);
            } else {
                assert(r[a] == s[a - 1] && r[b] == s[b - 1]);
            }
        }
    }
}

fn upsert_piece(pieces: &mut Vec<Piece>, index: usize, data: Vec<u8>)
    requires
        sorted_keys(pieces_view(old(pieces)@)),
    ensures
        pieces_view(final(pieces)@) == upsert(pieces_view(old(pieces)@), index as nat, data@),
        sorted_keys(pieces_view(final(pieces)@)),
{
    let ghost s = pieces_view(pieces@);
    let mut i: usize = 0;
    while i < pieces.len() && pieces[i].index < index
        invariant
            i <= pieces@.len(),
            s == pieces_view(pieces@),
            forall|j: int| 0 <= j < i ==> s[j].0 < index,
        decreases pieces@.len() - i,
    {
        i = i + 1;
    }
    proof {
        lemma_upsert_at(s, index as nat, data@, i as int);
    }
    let piece = Piece { index, data };
    if i < pieces.len() && pieces[i].index == index {
        pieces.set(i, piece);
        assert(pieces_view(pieces@) =~= s.update(i as int, (index as nat, piece.data@)));
    } else {
        pieces.insert(i, piece);
        assert(pieces_view(pieces@) =~= s.insert(i as int, (index as nat, piece.data@)));
    }
}

impl FileReceiver {
    /// Stores a received chunk at its position in its file (replacing any
    /// chunk already there) and counts its bytes. Refused when the transfer
    /// is unknown.
    pub fn receive_chunk(&mut self, chunk: FileChunk) -> (r: Result<Option<FileTransferProgress>, IPChatWebRTCError>)
        requires
            old(self).wf(),
            old(self).transfers_view().contains_key(chunk.transfer_id@) ==>
                old(self).transfers_view()[chunk.transfer_id@].bytes_received + chunk.data@.len() <= u64::MAX,
        ensures
            final(self).wf(),
            !old(self).transfers_view().contains_key(chunk.transfer_id@) ==> {
                &&& final(self).transfers_view() == old(self).transfers_view()
                &&& r matches Err(IPChatWebRTCError::FileTransferError(m)) && m@ == not_found_text()
            },
            old(self).transfers_view().contains_key(chunk.transfer_id@) ==> {
                let t = receive_step(old(self).transfers_view()[chunk.transfer_id@], chunk.view_chunk());
                &&& final(self).transfers_view() == old(self).transfers_view().insert(chunk.transfer_id@, t)
                &&& r matches Ok(Some(p))
                &&& p.transfer_id@ == chunk.transfer_id@
                &&& p.bytes_transferred == t.bytes_received
                &&& p.total_bytes == t.total_bytes
            },
    {
        let ghost pairs = entry_pairs(self.transfers@);
        let ghost cv = chunk.view_chunk();
        let found = self.find(chunk.transfer_id.as_str());
        let i = match found {
            None => {
                return Err(IPChatWebRTCError::FileTransferError(String::from_str("Transfer not found")));
            },
            Some(i) => i,
        };
        proof {
            lemma_assoc_get(pairs, i as int);
        }
        let FileChunk { transfer_id, file_index, chunk_index, data } = chunk;
        let len = data.len();
        let mut entry = self.transfers.remove(i);
        let ghost st0 = entry.state;
        let ghost tv0 = entry.state.view();
        let ghost cp = chunk_pairs(entry.state.chunks@);
        // find the chunks already received for this file
        let mut j: usize = 0;
        while j < entry.state.chunks.len() && entry.state.chunks[j].file_index != file_index
            invariant
                j <= entry.state.chunks@.len(),
                entry.state == st0,
                cp == chunk_pairs(entry.state.chunks@),
                forall|a: int| 0 <= a < j ==> cp[a].0 != file_index as nat,
            decreases entry.state.chunks@.len() - j,
        {
            j = j + 1;
        }
        if j < entry.state.chunks.len() {
            proof {
                lemma_assoc_get(cp, j as int);
            }
            let mut fc = entry.state.chunks.remove(j);
            upsert_piece(&mut fc.pieces, chunk_index, data);
            let ghost newp = pieces_view(fc.pieces@);
            entry.state.chunks.insert(j, fc);
            proof {
                assert(chunk_pairs(entry.state.chunks@) =~= cp.update(j as int, (cp[j as int].0, newp)));
                lemma_assoc_update(cp, j as int, newp);
            }
        } else {
            proof {
                assert forall|a: int| 0 <= a < cp.len() implies cp[a].0 != file_index as nat by {}
                lemma_assoc_absent(cp, file_index as nat);
                lemma_assoc_has_key(cp, file_index as nat);
            }
            let mut pieces: Vec<Piece> = Vec::new();
            upsert_piece(&mut pieces, chunk_index, data);
            assert(pieces_view(Seq::<Piece>::empty()) =~= Seq::empty());
            let ghost newp = pieces_view(pieces@);
            entry.state.chunks.push(FileChunks { file_index, pieces });
            proof {
                assert(chunk_pairs(entry.state.chunks@) =~= cp.push((file_index as nat, newp)));
                lemma_assoc_push(cp, file_index as nat, newp);
            }
        }
        entry.state.bytes_received = entry.state.bytes_received + len as u64;
        let progress = FileTransferProgress {
            transfer_id,
            bytes_transferred: entry.state.bytes_received,
            total_bytes: entry.state.total_bytes,
        };
        let ghost tv = entry.state.view();
        assert(tv == receive_step(tv0, cv)) by {
            assert(tv.chunks =~= receive_step(tv0, cv).chunks);
        }
        assert forall|a: int| 0 <= a < entry.state.chunks@.len() implies
            sorted_keys(#[trigger] pieces_view(entry.state.chunks@[a].pieces@)) by {
            if a != j {
                if a < j {
                    assert(entry.state.chunks@[a] == st0.chunks@[a]);
                } else if j < st0.chunks@.len() {
                    assert(entry.state.chunks@[a] == st0.chunks@[a]);
                }
            }
        }
        self.transfers.insert(i, entry);
        proof {
            assert(entry_pairs(self.transfers@) =~= pairs.update(i as int, (pairs[i as int].0, tv)));
            lemma_assoc_update(pairs, i as int, tv);
            assert forall|a: int| 0 <= a < self.transfers@.len() implies (#[trigger] self.transfers@[a]).state.wf() by {
                if a != i {
                    assert(self.transfers@[a] == old(self).transfers@[a]);
                }
            }
        }
        Ok(Some(progress))
    }

    /// Progress of transfer `transfer_id`, if it is under way.
    pub fn get_progress(&self, transfer_id: &str) -> (r: Option<FileTransferProgress>)
        requires
            self.wf(),
        ensures
            r is Some <==> self.transfers_view().contains_key(transfer_id@),
            r matches Some(p) ==> {
                &&& p.transfer_id@ == transfer_id@
                &&& p.bytes_transferred == self.transfers_view()[transfer_id@].bytes_received
                &&& p.total_bytes == self.transfers_view()[transfer_id@].total_bytes
            },
    {
        match self.find(transfer_id) {
            None => None,
            Some(i) => {
                proof {
                    lemma_assoc_get(entry_pairs(self.transfers@), i as int);
                }
                let state = &self.transfers[i].state;
                Some(FileTransferProgress {
                    transfer_id: String::from_str(transfer_id),
                    bytes_transferred: state.bytes_received,
                    total_bytes: state.total_bytes,
                })
            },
        }
    }
}

fn join_pieces(pieces: &Vec<Piece>) -> (out: Vec<u8>)
    ensures
        out@ == flatten(pieces_view(pieces@)),
{
    let ghost s = pieces_view(pieces@);
    let mut out: Vec<u8> = Vec::new();
    let mut k: usize = 0;
    assert(s.take(0) =~= Seq::empty());
    while k < pieces.len()
        invariant
            k <= pieces@.len(),
            s == pieces_view(pieces@),
            out@ == flatten(s.take(k as int)),
        decreases pieces@.len() - k,
    {
        assert(s.take(k as int + 1).drop_last() =~= s.take(k as int));
        out.extend_from_slice(pieces[k].data.as_slice());
        k = k + 1;
    }
    assert(s.take(pieces@.len() as int) =~= s);
    out
}

/// No file before `f` is missing, so the first missing file from 0 is the first from `f`.
proof fn lemma_missing_from_step(t: TransferView, f: nat)
    requires
        f < t.files.len(),
        t.chunks.contains_key(f),
    ensures
        missing_from(t, f) == missing_from(t, f + 1),
{
}

impl FileReceiver {
    /// Ends transfer `transfer_id` and puts its files back together, each from
    /// its chunks in order of position. The transfer is forgotten whatever the
    /// outcome. Refused when the transfer is unknown, or when a file has
    /// received no chunk (the first such file is named).
    pub fn assemble_files(&mut self, transfer_id: &str) -> (r: Result<Vec<Vec<u8>>, IPChatWebRTCError>)
        requires
            old(self).wf(),
        ensures
            final(self).wf(),
            final(self).transfers_view() == old(self).transfers_view().remove(transfer_id@),
            !old(self).transfers_view().contains_key(transfer_id@) ==> (
                r matches Err(IPChatWebRTCError::FileTransferError(m)) && m@ == not_found_text()),
            old(self).transfers_view().contains_key(transfer_id@) ==> match assembled(old(self).transfers_view()[transfer_id@]) {
                Err(f) => (r matches Err(IPChatWebRTCError::FileTransferError(m)) && m@ == missing_text(f)),
                Ok(files) => (r matches Ok(v) && data_view(v@) == files),
            },
    {
        let ghost pairs = entry_pairs(self.transfers@);
        let i = match self.find(transfer_id) {
            None => {
                proof {
                    assert(old(self).transfers_view().remove(transfer_id@) =~= old(self).transfers_view());
                }
                return Err(IPChatWebRTCError::FileTransferError(String::from_str("Transfer not found")));
            },
            Some(i) => i,
        };
        proof {
            lemma_assoc_get(pairs, i as int);
            lemma_assoc_remove(pairs, i as int);
        }
        let entry = self.transfers.remove(i);
        proof {
            assert(entry_pairs(self.transfers@) =~= pairs.remove(i as int));
            assert forall|a: int| 0 <= a < self.transfers@.len() implies (#[trigger] self.transfers@[a]).state.wf() by {
                if a < i {
                    assert(self.transfers@[a] == old(self).transfers@[a]);
                } else {
                    assert(self.transfers@[a] == old(self).transfers@[a + 1]);
                }
            }
        }
        let state = entry.state;
        let ghost t = state.view();
        let ghost cp = chunk_pairs(state.chunks@);
        let mut files: Vec<Vec<u8>> = Vec::new();
        let mut f: usize = 0;
        while f < state.files.len()
            invariant
                f <= state.files@.len(),
                t == state.view(),
                cp == chunk_pairs(state.chunks@),
                state.wf(),
                self.wf(),
                self.transfers_view() == old(self).transfers_view().remove(transfer_id@),
                old(self).transfers_view().contains_key(transfer_id@),
                t == old(self).transfers_view()[transfer_id@],
                missing_from(t, 0) == missing_from(t, f as nat),
                data_view(files@) == Seq::new(f as nat, |x: int| flatten(t.chunks[x as nat])),
            decreases state.files@.len() - f,
        {
            let mut j: usize = 0;
            while j < state.chunks.len() && state.chunks[j].file_index != f
                invariant
                    j <= state.chunks@.len(),
                    cp == chunk_pairs(state.chunks@),
                    forall|a: int| 0 <= a < j ==> cp[a].0 != f as nat,
                decreases state.chunks@.len() - j,
            {
                j = j + 1;
            }
            if j >= state.chunks.len() {
                proof {
                    lemma_assoc_absent(cp, f as nat);
                }
                let msg = String::from_str("Missing chunks for file ").concat(decimal_string(f as u64).as_str());
                return Err(IPChatWebRTCError::FileTransferError(msg));
            }
            proof {
                lemma_assoc_get(cp, j as int);
                lemma_missing_from_step(t, f as nat);
            }
            let data = join_pieces(&state.chunks[j].pieces);
            let ghost before = files@;
            let ghost dv = data@;
            assert(dv == flatten(t.chunks[f as nat]));
            files.push(data);
            proof {
                assert(data_view(before).len() == before.len());
                assert(data_view(before).len() == f);
                assert(before.len() == f);
                assert(files@ == before.push(data));
                assert(files@[f as int]@ == dv);
                assert(data_view(files@)[f as int] == dv);
                let old_files = Seq::new(f as nat, |y: int| flatten(t.chunks[y as nat]));
                assert forall|x: int| 0 <= x < f + 1 implies data_view(files@)[x] == flatten(t.chunks[x as nat]) by {
                    if x < f {
                        assert(data_view(files@)[x] == data_view(before)[x]);
                        assert(data_view(before)[x] == old_files[x]);
                    }
                }
                assert(data_view(files@) =~= Seq::new((f + 1) as nat, |x: int| flatten(t.chunks[x as nat])));
            }
            f = f + 1;
        }
        Ok(files)
    }
}

fn sum_sizes(files: &Vec<FileMetadata>) -> (total: u64)
    requires
        total_size(files@) <= u64::MAX,
    ensures
        total == total_size(files@),
{
    let mut total: u64 = 0;
    let mut i: usize = 0;
    while i < files.len()
        invariant
            i <= files@.len(),
            total == total_size(files@.subrange(0, i as int)),
            total_size(files@) <= u64::MAX,
        decreases files@.len() - i,
    {
        proof {
            lemma_total_size_prefix(files@, i as nat);
            lemma_total_size_monotone(files@, (i + 1) as nat);
        }
        total = total + files[i].size;
        i = i + 1;
    }
    assert(files@.subrange(0, files@.len() as int) =~= files@);
    total
}

/// The declared sizes of a prefix sum to a prefix of the total.
pub proof fn lemma_total_size_prefix(files: Seq<FileMetadata>, i: nat)
    requires
        i < files.len(),
    ensures
        total_size(files.subrange(0, i as int + 1)) == total_size(files.subrange(0, i as int)) + files[i as int].size,
{
    assert(files.subrange(0, i as int + 1).drop_last() =~= files.subrange(0, i as int));
}

/// A prefix never declares more than the whole.
pub proof fn lemma_total_size_monotone(files: Seq<FileMetadata>, i: nat)
    requires
        i <= files.len(),
    ensures
        total_size(files.subrange(0, i as int)) <= total_size(files),
    decreases files.len() - i,
{
    if i < files.len() {
        lemma_total_size_prefix(files, i);
        lemma_total_size_monotone(files, i + 1);
    } else {
        assert(files.subrange(0, i as int) =~= files);
    }
}

} // verus!

verus! {

// ---------------------------------------------------------------------------
// What a transfer guarantees end to end
// ---------------------------------------------------------------------------

/// The first `n` chunks of a file, as the receiver keeps them.
pub open spec fn pieces_upto(d: Seq<u8>, n: nat) -> Seq<(nat, Seq<u8>)> {
    Seq::new(n, |c: int| (c as nat, chunk_bytes(d, c as nat)))
}

/// How many chunks a file is cut into.
pub open spec fn chunk_count(d: Seq<u8>) -> nat {
    if d.len() == 0 {
        0
    } else {
        ((d.len() - 1) as nat / (CHUNK_SIZE as nat)) + 1
    }
}

/// What the receiver holds of each file once it has received every chunk.
pub open spec fn expected_chunks(data: Seq<Seq<u8>>) -> Map<nat, Seq<(nat, Seq<u8>)>> {
    Map::new(
        |f: nat| f < data.len() && data[f as int].len() > 0,
        |f: nat| pieces_upto(data[f as int], chunk_count(data[f as int])),
    )
}

proof fn lemma_chunk_count(len: nat, n: nat)
    by (nonlinear_arith)
    requires
        n > 0,
        (n - 1) * 16384 < len,
        len <= n * 16384,
    ensures
        ((len - 1) as nat / 16384nat) + 1 == n,
{
}

proof fn lemma_chunk_count_covers(len: nat)
    by (nonlinear_arith)
    requires
        len > 0,
    ensures
        (((len - 1) as nat / 16384nat) + 1) * 16384 >= len,
        ((len - 1) as nat / 16384nat) * 16384 < len,
{
}

/// Chunks 0 to `n - 1` of a file, joined, are its first bytes.
pub proof fn lemma_flatten_prefix(d: Seq<u8>, n: nat)
    requires
        n == 0 || (n - 1) * (CHUNK_SIZE as nat) < d.len(),
    ensures
        flatten(pieces_upto(d, n)) == d.subrange(0, if n * (CHUNK_SIZE as nat) <= d.len() {
            (n * (CHUNK_SIZE as nat)) as int
        } else {
            d.len() as int
        }),
    decreases n,
{
    if n == 0 {
        assert(pieces_upto(d, 0) =~= Seq::empty());
        assert(d.subrange(0, 0) =~= Seq::empty());
    } else {
        let m = (n - 1) as nat;
        assert(pieces_upto(d, n).drop_last() =~= pieces_upto(d, m));
        lemma_flatten_prefix(d, m);
        let end = if n * (CHUNK_SIZE as nat) <= d.len() {
            (n * (CHUNK_SIZE as nat)) as int
        } else {
            d.len() as int
        };
        assert(d.subrange(0, (m * (CHUNK_SIZE as nat)) as int) + d.subrange((m * (CHUNK_SIZE as nat)) as int, end)
            =~= d.subrange(0, end));
    }
}

/// A file's chunks, joined, are the file.
pub proof fn lemma_flatten_full(d: Seq<u8>)
    ensures
        flatten(pieces_upto(d, chunk_count(d))) == d,
{
    let n = chunk_count(d);
    if d.len() == 0 {
        assert(pieces_upto(d, 0) =~= Seq::empty());
        assert(d =~= Seq::empty());
    } else {
        lemma_chunk_count_covers(d.len());
        lemma_flatten_prefix(d, n);
        assert(d.subrange(0, d.len() as int) =~= d);
    }
}

proof fn lemma_receive_stream(t: TransferView, data: Seq<Seq<u8>>, fi: nat, ci: nat)
    requires
        fi <= data.len(),
        fi < data.len() ==> (ci == 0 || (ci - 1) * (CHUNK_SIZE as nat) < data[fi as int].len()),
        forall|f: nat| #[trigger] t.chunks.contains_key(f) ==> f <= fi && f < data.len(),
        forall|f: nat| f < fi ==> (#[trigger] t.chunks.contains_key(f) <==> data[f as int].len() > 0),
        forall|f: nat| f < fi && #[trigger] t.chunks.contains_key(f) ==>
            t.chunks[f] == pieces_upto(data[f as int], chunk_count(data[f as int])),
        fi < data.len() ==> (t.chunks.contains_key(fi) <==> ci > 0),
        fi < data.len() && ci > 0 ==> t.chunks[fi] == pieces_upto(data[fi as int], ci),
    ensures
        received_all(t, chunks_from(data, fi, ci)).chunks == expected_chunks(data),
        received_all(t, chunks_from(data, fi, ci)).files == t.files,
        received_all(t, chunks_from(data, fi, ci)).total_bytes == t.total_bytes,
    decreases data.len() - fi, pending(data, fi, ci),
{
    let cs = CHUNK_SIZE as nat;
    if fi >= data.len() {
        assert(t.chunks =~= expected_chunks(data));
    } else if ci * cs >= data[fi as int].len() {
        let d = data[fi as int];
        if d.len() > 0 {
            assert(ci > 0);
            lemma_chunk_count(d.len(), ci);
        }
        lemma_receive_stream(t, data, fi + 1, 0);
    } else {
        let d = data[fi as int];
        let c = ChunkView { file_index: fi, chunk_index: ci, data: chunk_bytes(d, ci) };
        let rest = chunks_from(data, fi, ci + 1);
        assert(chunks_from(data, fi, ci) == seq![c] + rest);
        assert((seq![c] + rest)[0] == c);
        assert((seq![c] + rest).drop_first() =~= rest);
        let before = if t.chunks.contains_key(fi) { t.chunks[fi] } else { Seq::empty() };
        assert(before =~= pieces_upto(d, ci));
        lemma_upsert_at(before, ci, chunk_bytes(d, ci), ci as int);
        assert(upsert(before, ci, chunk_bytes(d, ci)) =~= pieces_upto(d, ci + 1));
        let t2 = receive_step(t, c);
        lemma_receive_stream(t2, data, fi, ci + 1);
    }
}

/// No file from `k` on lacks chunks, so none is missing from `k` on.
proof fn lemma_none_missing(t: TransferView, k: nat)
    requires
        forall|f: nat| k <= f < t.files.len() ==> #[trigger] t.chunks.contains_key(f),
    ensures
        missing_from(t, k) is None,
    decreases t.files.len() - k,
{
    if k < t.files.len() {
        lemma_none_missing(t, k + 1);
    }
}

/// Round trip: a receiver that gets every chunk of a transfer, in the order
/// the sender hands them out, puts back exactly the files that were sent,
/// provided no file is empty (an empty file has no chunk, and is reported missing).
pub proof fn lemma_transfer_round_trip(files: Seq<FileMetadata>, data: Seq<Seq<u8>>)
    requires
        files.len() == data.len(),
        forall|i: int| 0 <= i < data.len() ==> #[trigger] data[i].len() > 0,
    ensures
        assembled(received_all(started(files), chunks_from(data, 0, 0))) == Ok::<Seq<Seq<u8>>, nat>(data),
{
    let t = started(files);
    lemma_receive_stream(t, data, 0, 0);
    let r = received_all(t, chunks_from(data, 0, 0));
    assert forall|f: nat| 0 <= f < r.files.len() implies #[trigger] r.chunks.contains_key(f) by {
        assert(data[f as int].len() > 0);
    }
    lemma_none_missing(r, 0);
    let out = Seq::new(r.files.len(), |f: int| flatten(r.chunks[f as nat]));
    assert forall|f: int| 0 <= f < data.len() implies out[f] == data[f] by {
        assert(data[f].len() > 0);
        lemma_flatten_full(data[f]);
    }
    assert(out =~= data);
}

} // verus!

verus! {

proof fn lemma_upsert_commute(s: Seq<(nat, Seq<u8>)>, k1: nat, v1: Seq<u8>, k2: nat, v2: Seq<u8>)
    requires
        k1 != k2,
    ensures
        upsert(upsert(s, k1, v1), k2, v2) == upsert(upsert(s, k2, v2), k1, v1),
    decreases s.len(),
{
    let a = upsert(upsert(s, k1, v1), k2, v2);
    let b = upsert(upsert(s, k2, v2), k1, v1);
    if s.len() == 0 {
        let p1 = seq![(k1, v1)];
        let p2 = seq![(k2, v2)];
        let e = Seq::<(nat, Seq<u8>)>::empty();
        assert(p1.drop_first() =~= e);
        assert(p2.drop_first() =~= e);
        assert(upsert(s, k1, v1) == p1);
        assert(upsert(s, k2, v2) == p2);
        assert(upsert(e, k1, v1) == p1);
        assert(upsert(e, k2, v2) == p2);
        if k1 < k2 {
            assert(a =~= seq![(k1, v1), (k2, v2)]);
            assert(b =~= seq![(k1, v1), (k2, v2)]);
        } else {
            assert(a =~= seq![(k2, v2), (k1, v1)]);
            assert(b =~= seq![(k2, v2), (k1, v1)]);
        }
    } else {
        let t = s.drop_first();
        lemma_upsert_commute(t, k1, v1, k2, v2);
        let h = s[0];
        let u1 = upsert(s, k1, v1);
        let u2 = upsert(s, k2, v2);
        if h.0 == k1 {
            assert(u1.drop_first() =~= t);
        } else if h.0 > k1 {
            assert(u1.drop_first() =~= s);
        } else {
            assert(u1.drop_first() =~= upsert(t, k1, v1));
        }
        if h.0 == k2 {
            assert(u2.drop_first() =~= t);
        } else if h.0 > k2 {
            assert(u2.drop_first() =~= s);
        } else {
            assert(u2.drop_first() =~= upsert(t, k2, v2));
        }
        if h.0 < k1 && h.0 < k2 {
            assert(a =~= b);
        } else if k1 < k2 {
            if h.0 == k1 || h.0 > k1 {
                let w = upsert(s, k2, v2);
                assert(a.drop_first() =~= b.drop_first());
                assert(a =~= b);
            } else {
                assert(a =~= b);
            }
        } else {
            assert(a.drop_first() =~= b.drop_first());
            assert(a =~= b);
        }
    }
}

/// Order does not matter: two chunks at different places (another file or
/// another position) leave the receiver in the same state whichever arrives first.
pub proof fn lemma_receive_order_irrelevant(t: TransferView, a: ChunkView, b: ChunkView)
    requires
        a.file_index != b.file_index || a.chunk_index != b.chunk_index,
    ensures
        receive_step(receive_step(t, a), b) == receive_step(receive_step(t, b), a),
{
    let ab = receive_step(receive_step(t, a), b);
    let ba = receive_step(receive_step(t, b), a);
    if a.file_index == b.file_index {
        let before = if t.chunks.contains_key(a.file_index) { t.chunks[a.file_index] } else { Seq::empty() };
        lemma_upsert_commute(before, a.chunk_index, a.data, b.chunk_index, b.data);
    }
    assert(ab.chunks =~= ba.chunks);
}

} // verus!

verus! {

/// The number of bytes in the chunks `cs`.
pub open spec fn bytes_of(cs: Seq<ChunkView>) -> nat
    decreases cs.len(),
{
    if cs.len() == 0 {
        0
    } else {
        cs[0].data.len() + bytes_of(cs.drop_first())
    }
}

/// The number of bytes in files `fi` onwards.
pub open spec fn total_len_from(data: Seq<Seq<u8>>, fi: nat) -> nat
    decreases data.len() - fi,
{
    if fi >= data.len() {
        0
    } else {
        data[fi as int].len() + total_len_from(data, fi + 1)
    }
}

proof fn lemma_chunks_bytes_from(data: Seq<Seq<u8>>, fi: nat, ci: nat)
    ensures
        fi < data.len() ==> bytes_of(chunks_from(data, fi, ci)) + (if ci * (CHUNK_SIZE as nat) <= data[fi as int].len() {
            ci * (CHUNK_SIZE as nat)
        } else {
            data[fi as int].len() as nat
        }) == total_len_from(data, fi),
        fi >= data.len() ==> bytes_of(chunks_from(data, fi, ci)) == 0,
    decreases data.len() - fi, pending(data, fi, ci),
{
    let cs = CHUNK_SIZE as nat;
    if fi >= data.len() {
    } else if ci * cs >= data[fi as int].len() {
        lemma_chunks_bytes_from(data, fi + 1, 0);
    } else {
        let d = data[fi as int];
        let c = ChunkView { file_index: fi, chunk_index: ci, data: chunk_bytes(d, ci) };
        let rest = chunks_from(data, fi, ci + 1);
        assert(chunks_from(data, fi, ci) == seq![c] + rest);
        assert((seq![c] + rest)[0] == c);
        assert((seq![c] + rest).drop_first() =~= rest);
        lemma_chunks_bytes_from(data, fi, ci + 1);
    }
}

/// A chunk that `data` really has: chunk `chunk_index` of file
/// `file_index`, with its bytes, between 1 and `CHUNK_SIZE` of them.
pub open spec fn is_chunk_of(data: Seq<Seq<u8>>, c: ChunkView) -> bool {
    &&& c.file_index < data.len()
    &&& c.chunk_index * (CHUNK_SIZE as nat) < data[c.file_index as int].len()
    &&& c.data == chunk_bytes(data[c.file_index as int], c.chunk_index)
    &&& 0 < c.data.len() <= CHUNK_SIZE
}

/// Whether chunk `a` comes before chunk `b`: in an earlier file, or earlier
/// in the same file.
pub open spec fn chunk_before(a: ChunkView, b: ChunkView) -> bool {
    a.file_index < b.file_index || (a.file_index == b.file_index && a.chunk_index < b.chunk_index)
}

/// Whether chunk `c` of file `f` is at or after chunk `ci` of file `fi`.
pub open spec fn at_or_after(f: nat, c: nat, fi: nat, ci: nat) -> bool {
    f > fi || (f == fi && c >= ci)
}

/// The shape of the chunk stream, from chunk `ci` of file `fi` on: every
/// chunk is one that the data has, with 1 to `CHUNK_SIZE` bytes; the chunks
/// come file by file and, in a file, by position, each once; and every
/// chunk of the data from there on is among them. (`next_chunk` hands out
/// exactly this stream, from the first chunk of the first file.)
pub proof fn lemma_chunk_stream(data: Seq<Seq<u8>>, fi: nat, ci: nat)
    ensures
        forall|k: int| 0 <= k < chunks_from(data, fi, ci).len() ==> {
            let c = #[trigger] chunks_from(data, fi, ci)[k];
            is_chunk_of(data, c) && at_or_after(c.file_index, c.chunk_index, fi, ci)
        },
        forall|j: int, k: int| 0 <= j < k < chunks_from(data, fi, ci).len() ==> chunk_before(
            #[trigger] chunks_from(data, fi, ci)[j],
            #[trigger] chunks_from(data, fi, ci)[k],
        ),
        forall|f: nat, c: nat| f < data.len() && c * (CHUNK_SIZE as nat) < data[f as int].len() && #[trigger] at_or_after(f, c, fi, ci)
            ==> exists|k: int| 0 <= k < chunks_from(data, fi, ci).len() && #[trigger] chunks_from(data, fi, ci)[k].file_index == f
                && chunks_from(data, fi, ci)[k].chunk_index == c,
    decreases data.len() - fi, pending(data, fi, ci),
{
    let cs = chunks_from(data, fi, ci);
    if fi >= data.len() {
    } else if ci * (CHUNK_SIZE as nat) >= data[fi as int].len() {
        lemma_chunk_stream(data, fi + 1, 0);
        assert(cs == chunks_from(data, fi + 1, 0));
        assert forall|f: nat, c: nat| f < data.len() && c * (CHUNK_SIZE as nat) < data[f as int].len() && #[trigger] at_or_after(f, c, fi, ci)
            implies exists|k: int| 0 <= k < cs.len() && #[trigger] cs[k].file_index == f && cs[k].chunk_index == c by {
            if f == fi {
                assert(c * (CHUNK_SIZE as nat) >= ci * (CHUNK_SIZE as nat));
            }
            assert(at_or_after(f, c, fi + 1, 0));
        }
    } else {
        let rest = chunks_from(data, fi, ci + 1);
        let head = ChunkView { file_index: fi, chunk_index: ci, data: chunk_bytes(data[fi as int], ci) };
        lemma_chunk_stream(data, fi, ci + 1);
        assert(cs == seq![head] + rest);
        assert(is_chunk_of(data, head));
        assert forall|k: int| 0 <= k < cs.len() implies {
            let c = #[trigger] cs[k];
            is_chunk_of(data, c) && at_or_after(c.file_index, c.chunk_index, fi, ci)
        } by {
            if k > 0 {
                assert(cs[k] == rest[k - 1]);
            }
        }
        assert forall|j: int, k: int| 0 <= j < k < cs.len() implies chunk_before(#[trigger] cs[j], #[trigger] cs[k]) by {
            assert(cs[k] == rest[k - 1]);
            if j > 0 {
                assert(cs[j] == rest[j - 1]);
            } else {
                let r = rest[k - 1];
                assert(at_or_after(r.file_index, r.chunk_index, fi, ci + 1));
            }
        }
        assert forall|f: nat, c: nat| f < data.len() && c * (CHUNK_SIZE as nat) < data[f as int].len() && #[trigger] at_or_after(f, c, fi, ci)
            implies exists|k: int| 0 <= k < cs.len() && #[trigger] cs[k].file_index == f && cs[k].chunk_index == c by {
            if f == fi && c == ci {
                assert(cs[0].file_index == f && cs[0].chunk_index == c);
            } else {
                assert(at_or_after(f, c, fi, ci + 1));
                let k = choose|k: int| 0 <= k < rest.len() && #[trigger] rest[k].file_index == f && rest[k].chunk_index == c;
                assert(cs[k + 1] == rest[k]);
            }
        }
    }
}

/// How much of `d` is left from chunk `ci` on (a termination measure).
pub open spec fn pending_in(d: Seq<u8>, ci: nat) -> nat {
    if ci * (CHUNK_SIZE as nat) < d.len() {
        (d.len() - ci * (CHUNK_SIZE as nat)) as nat
    } else {
        0
    }
}

/// The chunks of one file `d`, numbered `fi`, from chunk `ci` on.
pub open spec fn file_chunks(d: Seq<u8>, fi: nat, ci: nat) -> Seq<ChunkView>
    decreases pending_in(d, ci),
{
    if ci * (CHUNK_SIZE as nat) >= d.len() {
        Seq::empty()
    } else {
        seq![ChunkView { file_index: fi, chunk_index: ci, data: chunk_bytes(d, ci) }] + file_chunks(d, fi, ci + 1)
    }
}

/// The bytes of chunks, joined in order.
pub open spec fn joined(cs: Seq<ChunkView>) -> Seq<u8>
    decreases cs.len(),
{
    if cs.len() == 0 {
        Seq::empty()
    } else {
        cs[0].data + joined(cs.drop_first())
    }
}

proof fn lemma_file_chunks_from(data: Seq<Seq<u8>>, fi: nat, ci: nat)
    requires
        fi < data.len(),
    ensures
        chunks_from(data, fi, ci) == file_chunks(data[fi as int], fi, ci) + chunks_from(data, fi + 1, 0),
    decreases pending_in(data[fi as int], ci),
{
    let d = data[fi as int];
    if ci * (CHUNK_SIZE as nat) >= d.len() {
        assert(file_chunks(d, fi, ci) =~= Seq::<ChunkView>::empty());
        assert(chunks_from(data, fi, ci) =~= file_chunks(d, fi, ci) + chunks_from(data, fi + 1, 0));
    } else {
        assert((ci + 1) * (CHUNK_SIZE as nat) == ci * (CHUNK_SIZE as nat) + (CHUNK_SIZE as nat));
        lemma_file_chunks_from(data, fi, ci + 1);
        let head = seq![ChunkView { file_index: fi, chunk_index: ci, data: chunk_bytes(d, ci) }];
        assert(head + (file_chunks(d, fi, ci + 1) + chunks_from(data, fi + 1, 0)) =~= (head + file_chunks(
            d,
            fi,
            ci + 1,
        )) + chunks_from(data, fi + 1, 0));
    }
}

proof fn lemma_file_chunks_join(d: Seq<u8>, fi: nat, ci: nat)
    requires
        ci * (CHUNK_SIZE as nat) <= d.len(),
    ensures
        joined(file_chunks(d, fi, ci)) == d.subrange(ci * (CHUNK_SIZE as nat) as int, d.len() as int),
        forall|k: int| 0 <= k < file_chunks(d, fi, ci).len() ==> (#[trigger] file_chunks(d, fi, ci)[k]).chunk_index
            == ci + k && file_chunks(d, fi, ci)[k].file_index == fi,
    decreases pending_in(d, ci),
{
    let start = ci * (CHUNK_SIZE as nat);
    let fc = file_chunks(d, fi, ci);
    if start >= d.len() {
        assert(d.subrange(start as int, d.len() as int) =~= Seq::<u8>::empty());
    } else {
        assert((ci + 1) * (CHUNK_SIZE as nat) == start + (CHUNK_SIZE as nat));
        let rest = file_chunks(d, fi, ci + 1);
        if start + (CHUNK_SIZE as nat) <= d.len() {
            lemma_file_chunks_join(d, fi, ci + 1);
            assert(fc.drop_first() =~= rest);
            assert(d.subrange(start as int, d.len() as int) =~= d.subrange(start as int, (start + (CHUNK_SIZE as nat)) as int)
                + d.subrange((start + (CHUNK_SIZE as nat)) as int, d.len() as int));
        } else {
            assert(rest =~= Seq::<ChunkView>::empty());
            assert(fc.drop_first() =~= rest);
            assert(joined(rest) =~= Seq::<u8>::empty());
            assert(chunk_bytes(d, ci) + Seq::<u8>::empty() =~= chunk_bytes(d, ci));
        }
        assert forall|k: int| 0 <= k < fc.len() implies (#[trigger] fc[k]).chunk_index == ci + k && fc[k].file_index == fi by {
            if k > 0 {
                assert(fc[k] == rest[k - 1]);
            }
        }
    }
}

/// The chunks of a transfer, file by file: from the first chunk of file
/// `fi` on, the stream is that file's chunks followed by the stream from
/// the next file; a file's chunks are numbered 0, 1, 2, ... and their
/// bytes, joined in order, are the file.
pub proof fn lemma_stream_by_file(data: Seq<Seq<u8>>, fi: nat)
    requires
        fi < data.len(),
    ensures
        chunks_from(data, fi, 0) == file_chunks(data[fi as int], fi, 0) + chunks_from(data, fi + 1, 0),
        joined(file_chunks(data[fi as int], fi, 0)) == data[fi as int],
        forall|k: int| 0 <= k < file_chunks(data[fi as int], fi, 0).len() ==> (#[trigger] file_chunks(
            data[fi as int],
            fi,
            0,
        )[k]).chunk_index == k && file_chunks(data[fi as int], fi, 0)[k].file_index == fi,
{
    lemma_file_chunks_from(data, fi, 0);
    lemma_file_chunks_join(data[fi as int], fi, 0);
    assert(data[fi as int].subrange(0, data[fi as int].len() as int) =~= data[fi as int]);
}

/// Every byte is handed out once: the chunks of a transfer hold as many
/// bytes as its files.
pub proof fn lemma_chunks_cover_all_bytes(data: Seq<Seq<u8>>)
    ensures
        bytes_of(chunks_from(data, 0, 0)) == total_len_from(data, 0),
{
    lemma_chunks_bytes_from(data, 0, 0);
}

/// A receiver counts every byte of every chunk it receives.
pub proof fn lemma_received_bytes(t: TransferView, cs: Seq<ChunkView>)
    ensures
        received_all(t, cs).bytes_received == t.bytes_received + bytes_of(cs),
        received_all(t, cs).total_bytes == t.total_bytes,
        received_all(t, cs).files == t.files,
    decreases cs.len(),
{
    if cs.len() > 0 {
        lemma_received_bytes(receive_step(t, cs[0]), cs.drop_first());
    }
}

/// When every chunk of a transfer has arrived, the receiver has counted
/// exactly the bytes of the files sent, and the transfer is complete when
/// the declared sizes add up to them.
pub proof fn lemma_transfer_counts_all_bytes(files: Seq<FileMetadata>, data: Seq<Seq<u8>>)
    ensures
        received_all(started(files), chunks_from(data, 0, 0)).bytes_received == total_len_from(data, 0),
        received_all(started(files), chunks_from(data, 0, 0)).total_bytes == total_size(files),
        total_size(files) == total_len_from(data, 0) ==> received_all(started(files), chunks_from(data, 0, 0)).bytes_received
            >= received_all(started(files), chunks_from(data, 0, 0)).total_bytes,
{
    lemma_chunks_cover_all_bytes(data);
    lemma_received_bytes(started(files), chunks_from(data, 0, 0));
}

} // verus!
