//! What is asked of a disk, and what it answers.
//!
//! Reading and writing headers is done in steps. Each step asks one thing of a disk and
//! goes on with the answer.
use vstd::prelude::*;

use crate::error::HeaderError;

verus! {

/// Something that a disk can do.
pub enum Request<'a> {
    /// Say where the position is.
    Position,
    /// Move the position to this many bytes from the start.
    SeekStart(u64),
    /// Move the position to the end.
    SeekEnd,
    /// Read exactly this many bytes at the position, and move behind them.
    ReadExact(u64),
    /// Write bytes at the position, as many as are taken at once, and move behind them.
    Write(&'a [u8]),
}

/// What a disk answers.
pub enum Reply {
    /// The position is now this many bytes from the start.
    At(u64),
    /// These bytes were read.
    Data(Vec<u8>),
    /// This many bytes were written.
    Wrote(usize),
    /// The request failed. The number is for whoever made the request.
    Failed(usize),
}

/// A request by its contents.
pub enum RequestView {
    Position,
    SeekStart(u64),
    SeekEnd,
    ReadExact(u64),
    Write(Seq<u8>),
}

/// A reply by its contents.
pub enum ReplyView {
    At(u64),
    Data(Seq<u8>),
    Wrote(usize),
    Failed(usize),
}

impl<'a> View for Request<'a> {
    type V = RequestView;

    open spec fn view(&self) -> RequestView {
        match self {
            Request::Position => RequestView::Position,
            Request::SeekStart(offset) => RequestView::SeekStart(*offset),
            Request::SeekEnd => RequestView::SeekEnd,
            Request::ReadExact(len) => RequestView::ReadExact(*len),
            Request::Write(data) => RequestView::Write(data@),
        }
    }
}

impl View for Reply {
    type V = ReplyView;

    open spec fn view(&self) -> ReplyView {
        match self {
            Reply::At(offset) => ReplyView::At(*offset),
            Reply::Data(data) => ReplyView::Data(data@),
            Reply::Wrote(len) => ReplyView::Wrote(*len),
            Reply::Failed(failure) => ReplyView::Failed(*failure),
        }
    }
}

impl RequestView {
    /// Whether the reply is one to this request.
    pub open spec fn allows(self, reply: ReplyView) -> bool {
        match reply {
            ReplyView::At(_) => self is Position || self is SeekStart || self is SeekEnd,
            ReplyView::Data(data) => self matches RequestView::ReadExact(len) && data.len() == len,
            ReplyView::Wrote(_) => self is Write,
            ReplyView::Failed(_) => true,
        }
    }
}

/// How a piece of work goes on: it waits for an answer, or it is over.
pub enum Step<S, T> {
    /// The work goes on once its next request is answered.
    Ask(S),
    /// The work is over, with this result.
    Done(Result<T, HeaderError>),
}

/// A disk of a fixed size that does what is asked of it: its bytes, and a position.
#[verifier::ext_equal]
pub struct Image {
    pub bytes: Seq<u8>,
    pub position: nat,
}

/// `bytes` with `data` in place of those at `offset`.
pub open spec fn overwritten(bytes: Seq<u8>, offset: int, data: Seq<u8>) -> Seq<u8> {
    bytes.take(offset) + data + bytes.skip(offset + data.len())
}

impl Image {
    /// Whether the size and the position can be told in 64 bits.
    pub open spec fn valid(self) -> bool {
        self.bytes.len() <= u64::MAX && self.position <= u64::MAX
    }

    /// What the disk answers to a request, and what becomes of it.
    pub open spec fn serve(self, request: RequestView) -> (ReplyView, Image) {
        match request {
            RequestView::Position => (ReplyView::At(self.position as u64), self),
            RequestView::SeekStart(offset) => (
                ReplyView::At(offset),
                Image { position: offset as nat, ..self },
            ),
            RequestView::SeekEnd => (
                ReplyView::At(self.bytes.len() as u64),
                Image { position: self.bytes.len(), ..self },
            ),
            RequestView::ReadExact(len) => if len == 0 {
                (ReplyView::Data(Seq::empty()), self)
            } else if self.position + len <= self.bytes.len() {
                (
                    ReplyView::Data(
                        self.bytes.subrange(self.position as int, self.position + len),
                    ),
                    Image { position: self.position + len as nat, ..self },
                )
            } else {
                (ReplyView::Failed(0), Image { position: self.bytes.len(), ..self })
            },
            RequestView::Write(data) => if self.position + data.len() <= self.bytes.len() {
                (
                    ReplyView::Wrote(data.len() as usize),
                    Image {
                        bytes: overwritten(self.bytes, self.position as int, data),
                        position: self.position + data.len(),
                    },
                )
            } else {
                (ReplyView::Failed(0), self)
            },
        }
    }
}

/// Requests and replies are read as what they hold.
pub proof fn law_device_is_viewed(request: Request<'_>, reply: Reply)
    ensures
        request is Position <==> request@ is Position,
        request is SeekEnd <==> request@ is SeekEnd,
        request matches Request::SeekStart(offset) ==> request@ == RequestView::SeekStart(offset),
        request matches Request::ReadExact(len) ==> request@ == RequestView::ReadExact(len),
        request matches Request::Write(data) ==> request@ == RequestView::Write(data@),
        reply matches Reply::At(offset) ==> reply@ == ReplyView::At(offset),
        reply matches Reply::Data(data) ==> reply@ == ReplyView::Data(data@),
        reply matches Reply::Wrote(len) ==> reply@ == ReplyView::Wrote(len),
        reply matches Reply::Failed(failure) ==> reply@ == ReplyView::Failed(failure),
{
}

/// Which reply fits which request: a failure always, a position after a question for it or a
/// move, bytes after a reading of as many, and a count after a writing.
pub proof fn law_fitting_replies(request: RequestView)
    ensures
        forall|failure: usize| request.allows(ReplyView::Failed(failure)),
        forall|offset: u64|
            request.allows(ReplyView::At(offset)) <==> request is Position || request is SeekStart
                || request is SeekEnd,
        forall|data: Seq<u8>|
            request.allows(ReplyView::Data(data)) <==> (request matches RequestView::ReadExact(len)
                && data.len() == len),
        forall|len: usize| request.allows(ReplyView::Wrote(len)) <==> request is Write,
{
}

} // verus!
