//! Streaming decryption: only the chunk after the tag is encrypted, so a file can be
//! decrypted by decrypting that chunk and then copying the rest through a small buffer.
//! The decisions of that loop are here; the file reading and writing are the caller's.
use vstd::prelude::*;
use crate::xm::{
    decrypt_chunk_outcome, lemma_chunk_success_fixed_by_call, with_rest, XmInfo, XmInfoView,
};
use crate::wasm_runtime::TransformCall;
use crate::{XmError, XmErrorView};

verus! {

/// Streaming decryptor for XM files.
pub struct StreamingDecryptor {
    /// The size of the copy buffer, in bytes.
    pub buffer_size: usize,
}

/// Where the encrypted chunk lies in the file: from `encrypted_start` (the end of the
/// tag) up to `encrypted_end`; the plain audio follows.
pub struct StreamLayout {
    pub encrypted_start: usize,
    pub encrypted_end: usize,
}

/// The checks before streaming: an encrypted size and an IV source.
pub open spec fn streaming_check(info: XmInfoView) -> Option<XmErrorView> {
    if info.size == 0 {
        Some(XmErrorView::InvalidFormat("TSIZ field is 0 or missing"@))
    } else if info.isrc is None && info.encodedby is None {
        Some(XmErrorView::MissingMetadata("No IV found"@))
    } else {
        None
    }
}

impl StreamingDecryptor {
    /// A decryptor copying through a buffer of `buffer_size` bytes.
    pub fn new(buffer_size: usize) -> (r: Self)
        ensures
            r.buffer_size == buffer_size,
    {
        StreamingDecryptor { buffer_size }
    }

    /// Checks the metadata and locates the encrypted chunk.
    pub fn layout(&self, xm_info: &XmInfo) -> (r: Result<StreamLayout, XmError>)
        requires
            streaming_check(xm_info@) is None ==> xm_info.header_size + xm_info.size <= usize::MAX,
        ensures
            match streaming_check(xm_info@) {
                Some(e) => r matches Err(x) && x@ == e,
                None => r matches Ok(l) && l.encrypted_start == xm_info.header_size
                    && l.encrypted_end == xm_info.header_size + xm_info.size,
            },
    {
        if xm_info.size == 0 {
            return Err(XmError::InvalidFormat(String::from_str("TSIZ field is 0 or missing")));
        }
        if xm_info.isrc.is_none() && xm_info.encodedby.is_none() {
            return Err(XmError::MissingMetadata(String::from_str("No IV found")));
        }
        Ok(
            StreamLayout {
                encrypted_start: xm_info.header_size,
                encrypted_end: xm_info.header_size + xm_info.size,
            },
        )
    }

    /// The size of the copy buffer actually used: the configured size, or the default of
    /// 8 KiB when that is 0, so that every read makes progress.
    pub fn copy_buffer_len(&self) -> (r: usize)
        ensures
            r == copy_len(self.buffer_size),
            r > 0,
    {
        if self.buffer_size == 0 {
            8192
        } else {
            self.buffer_size
        }
    }

    /// How many bytes the next read of the plain part asks for, with `copied` of
    /// `plaintext_size` bytes done: a full copy buffer, or what is left when that is less.
    pub fn next_read_len(&self, copied: u64, plaintext_size: u64) -> (r: usize)
        requires
            copied < plaintext_size,
        ensures
            r as int == read_len_of(self.buffer_size, copied as int, plaintext_size as int),
            0 < r,
    {
        let b = self.copy_buffer_len();
        let left: u64 = plaintext_size - copied;
        if (b as u64) < left {
            b
        } else {
            left as usize
        }
    }
}

/// The copy buffer size for a configured `buffer_size`: 8 KiB when it is 0.
pub open spec fn copy_len(buffer_size: usize) -> usize {
    if buffer_size == 0 {
        8192
    } else {
        buffer_size
    }
}

/// What the copy of the plain part does next.
pub enum CopyAction {
    /// Read up to this many bytes and write them out.
    Read(usize),
    /// Everything has been copied.
    Finish,
}

/// The length of the next read, with `copied` of `total` bytes done: a full copy buffer,
/// or what is left when that is less.
pub open spec fn read_len_of(buffer_size: usize, copied: int, total: int) -> int {
    if (copy_len(buffer_size) as int) < total - copied {
        copy_len(buffer_size) as int
    } else {
        total - copied
    }
}

impl StreamingDecryptor {
    /// The size of the plain part after the encrypted chunk, in a file of `file_size` bytes.
    pub fn plaintext_len(&self, layout: &StreamLayout, file_size: u64) -> (r: u64)
        requires
            layout.encrypted_end <= file_size,
        ensures
            r == file_size - layout.encrypted_end,
    {
        file_size - layout.encrypted_end as u64
    }

    /// The next step of the copy, with `copied` of `plaintext_size` bytes done: finish once
    /// everything is copied, else read what `next_read_len` gives.
    pub fn next_action(&self, copied: u64, plaintext_size: u64) -> (r: CopyAction)
        ensures
            copied >= plaintext_size ==> r is Finish,
            copied < plaintext_size ==> (r matches CopyAction::Read(n) && n as int == read_len_of(
                self.buffer_size,
                copied as int,
                plaintext_size as int,
            )),
    {
        if copied >= plaintext_size {
            CopyAction::Finish
        } else {
            CopyAction::Read(self.next_read_len(copied, plaintext_size))
        }
    }

    /// The bytes copied after a read of `bytes_read` bytes (at most what was asked for):
    /// `None` when the read gave nothing, which ends the copy early.
    pub fn after_read(&self, copied: u64, plaintext_size: u64, bytes_read: usize) -> (r: Option<u64>)
        requires
            copied < plaintext_size,
            bytes_read <= plaintext_size - copied,
        ensures
            bytes_read == 0 ==> r is None,
            bytes_read > 0 ==> r == Some((copied + bytes_read) as u64),
            r matches Some(c) ==> copied < c <= plaintext_size,
    {
        if bytes_read == 0 {
            None
        } else {
            Some(copied + bytes_read as u64)
        }
    }
}

impl Default for StreamingDecryptor {
    /// An 8 KiB copy buffer.
    fn default() -> (r: Self)
        ensures
            r.buffer_size == 8192,
    {
        Self::new(8192)
    }
}

/// Each read of the plain part makes progress and never passes its end, whatever the
/// configured buffer size.
pub proof fn lemma_read_len_progress(buffer_size: usize, copied: int, total: int)
    requires
        0 <= copied < total,
    ensures
        0 < read_len_of(buffer_size, copied, total),
        copied + read_len_of(buffer_size, copied, total) <= total,
{
}

/// What the copy writes of the plain part `tail` from `copied` on, when every read gives
/// the bytes it asks for: each read's bytes in turn, until the end.
pub open spec fn copied_bytes(buffer_size: usize, tail: Seq<u8>, copied: int) -> Seq<u8>
    decreases tail.len() - copied,
{
    if copied < 0 || copied >= tail.len() {
        Seq::empty()
    } else {
        let n = read_len_of(buffer_size, copied, tail.len() as int);
        if n <= 0 {
            Seq::empty()
        } else {
            tail.subrange(copied, copied + n) + copied_bytes(buffer_size, tail, copied + n)
        }
    }
}

/// The copy writes the whole plain part, whatever the buffer size: the reads, taken in
/// turn from `copied`, give exactly the rest of `tail`.
pub proof fn lemma_copy_covers_tail(buffer_size: usize, tail: Seq<u8>, copied: int)
    requires
        0 <= copied <= tail.len(),
    ensures
        copied_bytes(buffer_size, tail, copied) == tail.subrange(copied, tail.len() as int),
    decreases tail.len() - copied,
{
    if copied < tail.len() {
        let n = read_len_of(buffer_size, copied, tail.len() as int);
        lemma_copy_covers_tail(buffer_size, tail, copied + n);
        assert(tail.subrange(copied, copied + n) + tail.subrange(copied + n, tail.len() as int)
            =~= tail.subrange(copied, tail.len() as int));
    } else {
        assert(tail.subrange(copied, tail.len() as int) =~= Seq::<u8>::empty());
    }
}

/// Streaming gives what whole-file decryption gives: the decrypted chunk `d` followed by
/// everything the copy writes of the plain part is `d` followed by that plain part, the
/// success form of `decrypt`'s outcome.
pub proof fn lemma_streaming_output_is_decryption(buffer_size: usize, d: Seq<u8>, tail: Seq<u8>)
    ensures
        with_rest(Ok::<Seq<u8>, XmErrorView>(d), tail) == Ok::<Seq<u8>, XmErrorView>(
            d + copied_bytes(buffer_size, tail, 0),
        ),
{
    lemma_copy_covers_tail(buffer_size, tail, 0);
    assert(tail.subrange(0, tail.len() as int) =~= tail);
}

/// Streaming and in-memory decryption give the same bytes when the transform's call is
/// the same: if whole-file decryption of `content` succeeds with `out`, and the chunk
/// decryption that streaming makes succeeds with `d` under the same record of the call,
/// then `out` is `d` followed by everything the copy writes of the plain part, whatever
/// the buffer size.
pub proof fn lemma_streaming_matches_in_memory(
    info: XmInfoView,
    content: Seq<u8>,
    buffer_size: usize,
    call: Option<TransformCall>,
    c: Result<Seq<u8>, XmErrorView>,
    out: Seq<u8>,
    d: Seq<u8>,
)
    requires
        info.header_size + info.size <= content.len(),
        decrypt_chunk_outcome(
            info,
            content.subrange(info.header_size as int, info.header_size + info.size),
            call,
            c,
        ),
        with_rest(c, content.subrange(info.header_size + info.size, content.len() as int))
            == Ok::<Seq<u8>, XmErrorView>(out),
        decrypt_chunk_outcome(
            info,
            content.subrange(info.header_size as int, info.header_size + info.size),
            call,
            Ok(d),
        ),
    ensures
        out == d + copied_bytes(
            buffer_size,
            content.subrange(info.header_size + info.size, content.len() as int),
            0,
        ),
{
    let chunk = content.subrange(info.header_size as int, info.header_size + info.size);
    let tail = content.subrange(info.header_size + info.size, content.len() as int);
    let d1 = c->Ok_0;
    lemma_chunk_success_fixed_by_call(info, chunk, call, d1, d);
    lemma_copy_covers_tail(buffer_size, tail, 0);
    assert(tail.subrange(0, tail.len() as int) =~= tail);
}

} // verus!
