//! The history reader: pages of past messages of a channel, newest first,
//! fetched by cursor and bounded by a total budget. The caller performs the
//! requests, waits out the rate limit, and hands each page back.
use vstd::prelude::*;
use crate::gateway::Message;
use crate::model::MessageReceived;

verus! {

/// The largest page the endpoint serves.
pub const PAGE_SIZE: usize = 100;

/// The spacing, in seconds, between two page requests.
pub const RATE_LIMIT_SECS: u64 = 10;

/// What the reader wants next.
#[derive(Debug)]
pub enum PageStep {
    /// The next message.
    Item(Message),
    /// A page is needed: at most `limit` messages, older than the message
    /// `before` when there is one. `wait` says that a request was made before,
    /// so the rate-limit spacing must be waited out first.
    Fetch { limit: usize, before: Option<String>, wait: bool },
    /// The history is exhausted, or the budget spent.
    Done,
}

/// A step as the contracts see it.
pub enum StepView {
    Item(Message),
    Fetch { limit: usize, before: Option<Seq<char>>, wait: bool },
    Done,
}

/// The reader as the contracts see it.
pub struct PagerView {
    /// What is left of the budget; `None` for no bound.
    pub remaining: Option<usize>,
    /// Messages of the last page not yet handed out, in order.
    pub buffer: Seq<Message>,
    /// The id of the last message handed out, or the starting cursor.
    pub cursor: Option<Seq<char>>,
    /// The size of the page asked for last.
    pub requested: usize,
    /// Whether a page has been asked for already.
    pub fetched: bool,
}

/// One call of `next`: a buffered message first; else the end when the
/// budget is spent; else a page of `min(remaining, 100)`, taken from the
/// budget.
pub open spec fn next_spec(v: PagerView) -> (PagerView, StepView) {
    if v.buffer.len() > 0 {
        let m = v.buffer[0];
        (
            PagerView { buffer: v.buffer.drop_first(), cursor: Some(m.spec_message_id()), ..v },
            StepView::Item(m),
        )
    } else {
        match v.remaining {
            Some(n) => if n == 0 {
                (v, StepView::Done)
            } else {
                let limit = if n < PAGE_SIZE {
                    n
                } else {
                    PAGE_SIZE
                };
                (
                    PagerView {
                        remaining: Some((n - limit) as usize),
                        cursor: None,
                        requested: limit,
                        fetched: true,
                        ..v
                    },
                    StepView::Fetch { limit, before: v.cursor, wait: v.fetched },
                )
            },
            None => (
                PagerView { cursor: None, requested: PAGE_SIZE, fetched: true, ..v },
                StepView::Fetch { limit: PAGE_SIZE, before: v.cursor, wait: v.fetched },
            ),
        }
    }
}

/// A page arrived: it is buffered, and a page shorter than asked for ends
/// the history.
pub open spec fn page_spec(v: PagerView, page: Seq<Message>) -> PagerView {
    PagerView {
        buffer: page,
        remaining: if page.len() < v.requested {
            Some(0)
        } else {
            v.remaining
        },
        ..v
    }
}

/// Reads the history of one channel, page by page.
#[derive(Debug)]
pub struct ChannelMessages {
    user_id: String,
    buffer: Vec<Message>,
    next_msg_id: Option<String>,
    limit: Option<usize>,
    requested: usize,
    fetched: bool,
}

impl View for ChannelMessages {
    type V = PagerView;

    closed spec fn view(&self) -> PagerView {
        PagerView {
            remaining: self.limit,
            buffer: self.buffer@,
            cursor: match self.next_msg_id {
                Some(s) => Some(s@),
                None => None,
            },
            requested: self.requested,
            fetched: self.fetched,
        }
    }
}

impl ChannelMessages {
    /// A reader for the user `user_id`, with a budget of `limit` messages
    /// (`None` for no bound), starting before the message `before_msg` if
    /// given.
    pub fn new(user_id: String, limit: Option<usize>, before_msg: Option<String>) -> (r:
        ChannelMessages)
        ensures
            r@.remaining == limit,
            r@.buffer.len() == 0,
            r@.cursor == match before_msg {
                Some(s) => Some(s@),
                None => None::<Seq<char>>,
            },
            !r@.fetched,
    {
        ChannelMessages {
            user_id,
            buffer: Vec::new(),
            next_msg_id: before_msg,
            limit,
            requested: 0,
            fetched: false,
        }
    }

    pub closed spec fn spec_user_id(&self) -> Seq<char> {
        self.user_id@
    }

    /// What the reader wants next.
    pub fn next(&mut self) -> (r: PageStep)
        ensures
            final(self)@ == next_spec(old(self)@).0,
            final(self).spec_user_id() == old(self).spec_user_id(),
            match (r, next_spec(old(self)@).1) {
                (PageStep::Item(m), StepView::Item(n)) => m == n,
                (
                    PageStep::Fetch { limit, before, wait },
                    StepView::Fetch { limit: l, before: b, wait: w },
                ) => limit == l && wait == w && match before {
                    Some(s) => b == Some(s@),
                    None => b is None,
                },
                (PageStep::Done, StepView::Done) => true,
                _ => false,
            },
    {
        if self.buffer.len() > 0 {
            let m = self.buffer.remove(0);
            self.next_msg_id = Some(m.message_id().to_owned());
            assert(self.buffer@ =~= old(self).buffer@.drop_first());
            return PageStep::Item(m);
        }
        let limit = match self.limit {
            Some(n) => {
                if n == 0 {
                    return PageStep::Done;
                }
                let page = if n < PAGE_SIZE {
                    n
                } else {
                    PAGE_SIZE
                };
                self.limit = Some(n - page);
                page
            },
            None => PAGE_SIZE,
        };
        let before = self.next_msg_id.take();
        let wait = self.fetched;
        self.requested = limit;
        self.fetched = true;
        PageStep::Fetch { limit, before, wait }
    }

    /// The page that the last `Fetch` asked for arrived, its messages already
    /// built.
    pub fn deliver(&mut self, page: Vec<Message>)
        ensures
            final(self)@ == page_spec(old(self)@, page@),
            final(self).spec_user_id() == old(self).spec_user_id(),
    {
        if page.len() < self.requested {
            self.limit = Some(0);
        }
        self.buffer = page;
    }

    /// The page that the last `Fetch` asked for arrived as decoded: each item
    /// becomes a message for this reader's user.
    pub fn deliver_received(&mut self, page: Vec<MessageReceived>)
        ensures
            final(self).spec_user_id() == old(self).spec_user_id(),
            exists|built: Seq<Message>|
                {
                    &&& built.len() == page@.len()
                    &&& forall|i: int|
                        0 <= i < built.len() ==> (#[trigger] built[i]).from_received(
                            page@[i],
                            old(self).spec_user_id(),
                        )
                    &&& final(self)@ == page_spec(old(self)@, built)
                },
    {
        let ghost received = page@;
        let mut page = page;
        let mut built: Vec<Message> = Vec::new();
        let n = page.len();
        let mut i: usize = 0;
        assert(page@ =~= received.subrange(0, n as int));
        while i < n
            invariant
                n == received.len(),
                i <= n,
                page@ =~= received.subrange(i as int, n as int),
                built@.len() == i,
                forall|j: int|
                    0 <= j < i ==> (#[trigger] built@[j]).from_received(
                        received[j],
                        self.spec_user_id(),
                    ),
            decreases n - i,
        {
            let item = page.remove(0);
            assert(item == received[i as int]);
            let m = Message::from_message_received(item, self.user_id.as_str());
            built.push(m);
            assert(page@ =~= received.subrange(i + 1, n as int));
            i = i + 1;
        }
        self.deliver(built);
    }
}

/// The messages of the pages, one page after another.
pub open spec fn flatten(pages: Seq<Seq<Message>>) -> Seq<Message>
    decreases pages.len(),
{
    if pages.len() == 0 {
        seq![]
    } else {
        pages[0] + flatten(pages.drop_first())
    }
}

/// Drives the reader against a server that answers its requests with
/// `pages`, in order, for at most `fuel` steps: the messages handed out, the
/// number of requests made, and whether the reader said it was done.
pub open spec fn run(v: PagerView, pages: Seq<Seq<Message>>, fuel: nat) -> (Seq<Message>, nat, bool)
    decreases fuel,
{
    if fuel == 0 {
        (seq![], 0, false)
    } else {
        let (v2, step) = next_spec(v);
        match step {
            StepView::Item(m) => {
                let (ys, n, d) = run(v2, pages, (fuel - 1) as nat);
                (seq![m] + ys, n, d)
            },
            StepView::Fetch { .. } => if pages.len() == 0 {
                (seq![], 0, false)
            } else {
                let (ys, n, d) = run(page_spec(v2, pages[0]), pages.drop_first(), (fuel - 1) as nat);
                (ys, n + 1, d)
            },
            StepView::Done => (seq![], 0, true),
        }
    }
}

/// The buffered messages come out first, in order, before anything else.
proof fn lemma_drain(v: PagerView, pages: Seq<Seq<Message>>, fuel: nat)
    requires
        fuel >= v.buffer.len(),
    ensures
        run(v, pages, fuel) == ({
            let (ys, n, d) = run(
                PagerView {
                    buffer: seq![],
                    cursor: if v.buffer.len() > 0 {
                        Some(v.buffer.last().spec_message_id())
                    } else {
                        v.cursor
                    },
                    ..v
                },
                pages,
                (fuel - v.buffer.len()) as nat,
            );
            (v.buffer + ys, n, d)
        }),
    decreases v.buffer.len(),
{
    if v.buffer.len() == 0 {
        assert(v.buffer + run(v, pages, fuel).0 =~= run(v, pages, fuel).0);
        assert(v.buffer =~= seq![]);
        assert(PagerView { buffer: seq![], cursor: v.cursor, ..v } == v);
    } else {
        let (v2, step) = next_spec(v);
        lemma_drain(v2, pages, (fuel - 1) as nat);
        if v2.buffer.len() > 0 {
            assert(v2.buffer.last() == v.buffer.last());
        }
        let rest = run(
            PagerView {
                buffer: seq![],
                cursor: if v.buffer.len() > 0 {
                    Some(v.buffer.last().spec_message_id())
                } else {
                    v.cursor
                },
                ..v
            },
            pages,
            (fuel - v.buffer.len()) as nat,
        );
        assert(seq![v.buffer[0]] + (v2.buffer + rest.0) =~= v.buffer + rest.0);
    }
}

/// Against a server that answers every request with a full page of 100
/// until a last, shorter page, an unbounded reader with nothing buffered
/// hands out every message of every page exactly once, in order, makes one
/// request per page, and says it is done after the short page without
/// asking for another.
pub proof fn lemma_reads_all_pages(v: PagerView, pages: Seq<Seq<Message>>, fuel: nat)
    requires
        v.remaining is None,
        v.buffer.len() == 0,
        pages.len() >= 1,
        forall|i: int| 0 <= i < pages.len() - 1 ==> (#[trigger] pages[i]).len() == PAGE_SIZE,
        pages.last().len() < PAGE_SIZE,
        fuel >= flatten(pages).len() + pages.len() + 1,
    ensures
        run(v, pages, fuel) == (flatten(pages), pages.len(), true),
    decreases pages.len(),
{
    let (v2, step) = next_spec(v);
    let p = pages[0];
    let rest = pages.drop_first();
    assert(flatten(pages) == p + flatten(rest));
    let v3 = page_spec(v2, p);
    lemma_drain(v3, rest, (fuel - 1) as nat);
    let v4 = PagerView {
        buffer: seq![],
        cursor: if v3.buffer.len() > 0 {
            Some(v3.buffer.last().spec_message_id())
        } else {
            v3.cursor
        },
        ..v3
    };
    let f4 = (fuel - 1 - p.len()) as nat;
    if pages.len() == 1 {
        assert(rest.len() == 0);
        assert(flatten(rest) =~= Seq::<Message>::empty());
        assert(p.len() < PAGE_SIZE);
        assert(v4.remaining == Some(0usize));
        assert(run(v4, rest, f4) == (Seq::<Message>::empty(), 0nat, true));
        assert(p + Seq::<Message>::empty() =~= p);
    } else {
        assert(p.len() == PAGE_SIZE);
        assert(v4.remaining is None);
        assert forall|i: int| 0 <= i < rest.len() - 1 implies (#[trigger] rest[i]).len()
            == PAGE_SIZE by {
            assert(rest[i] == pages[i + 1]);
        }
        assert(rest.last() == pages.last());
        lemma_reads_all_pages(v4, rest, f4);
    }
}

} // verus!
