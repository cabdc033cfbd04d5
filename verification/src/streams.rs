//! The order books of the streams that a watcher follows, each found by
//! the name of its stream.

use vstd::prelude::*;
use vstd::string::*;

use crate::enums::BybitCategory;
use crate::text::{contains_text, nth_piece};
use crate::ws::{is_snapshot_message, message_topic, orderbook_stream, orderbook_stream_name, TopicMessage};
use crate::orderbook::{
    apply_levels, empty_book, level_map, top_quantities, FinalOrderbook, OrderbookUpdate, OrderbookView,
};

verus! {

/// The books of the followed streams, each with the name of its stream, in
/// the order in which the streams were first followed.
pub type StreamsView = Seq<(Seq<char>, OrderbookView)>;

/// The position of the first book kept for a stream name.
pub open spec fn find_stream(entries: StreamsView, name: Seq<char>) -> Option<int>
    decreases entries.len(),
{
    if entries.len() == 0 {
        None
    } else {
        match find_stream(entries.drop_last(), name) {
            Some(i) => Some(i),
            None => if entries.last().0 == name {
                Some(entries.len() - 1)
            } else {
                None
            },
        }
    }
}

/// The book kept for a stream name, if the stream is followed.
pub open spec fn book_for(entries: StreamsView, name: Seq<char>) -> Option<OrderbookView> {
    match find_stream(entries, name) {
        Some(i) => Some(entries[i].1),
        None => None,
    }
}

/// Where `find_stream` points: inside the sequence, at an entry of that
/// name, with no earlier entry of that name.
pub proof fn lemma_find_stream(entries: StreamsView, name: Seq<char>)
    ensures
        find_stream(entries, name) matches Some(i) ==> 0 <= i < entries.len() && entries[i].0
            == name && forall|j: int| 0 <= j < i ==> #[trigger] entries[j].0 != name,
        find_stream(entries, name) is None ==> forall|j: int|
            0 <= j < entries.len() ==> #[trigger] entries[j].0 != name,
    decreases entries.len(),
{
    if entries.len() > 0 {
        let init = entries.drop_last();
        lemma_find_stream(init, name);
        assert forall|j: int| 0 <= j < init.len() implies init[j] == entries[j] by {}
    }
}

/// `find_stream` is the first entry of that name.
pub proof fn lemma_find_stream_first(entries: StreamsView, name: Seq<char>, i: int)
    requires
        0 <= i < entries.len(),
        entries[i].0 == name,
        forall|j: int| 0 <= j < i ==> #[trigger] entries[j].0 != name,
    ensures
        find_stream(entries, name) == Some(i),
    decreases entries.len(),
{
    let init = entries.drop_last();
    if i < entries.len() - 1 {
        assert(init[i] == entries[i]);
        assert forall|j: int| 0 <= j < i implies #[trigger] init[j].0 != name by {
            assert(init[j] == entries[j]);
        }
        lemma_find_stream_first(init, name, i);
    } else {
        lemma_find_stream(init, name);
        if find_stream(init, name) is Some {
            let k = find_stream(init, name)->0;
            assert(init[k] == entries[k]);
        }
    }
}

/// `find_stream` finds nothing when no entry has that name.
pub proof fn lemma_find_stream_none(entries: StreamsView, name: Seq<char>)
    requires
        forall|j: int| 0 <= j < entries.len() ==> #[trigger] entries[j].0 != name,
    ensures
        find_stream(entries, name) is None,
{
    lemma_find_stream(entries, name);
}

/// The books after a stream is followed anew: its book is emptied where it
/// has one, else an empty book is added for it at the end.
pub open spec fn watch_entries(entries: StreamsView, name: Seq<char>) -> StreamsView {
    match find_stream(entries, name) {
        Some(i) => entries.update(i, (name, empty_book())),
        None => entries.push((name, empty_book())),
    }
}

/// Following a stream gives it an empty book and leaves the books of all
/// other streams as they were.
pub proof fn lemma_watch_book_for(entries: StreamsView, name: Seq<char>, other: Seq<char>)
    ensures
        book_for(watch_entries(entries, name), name) == Some(empty_book()),
        other != name ==> book_for(watch_entries(entries, name), other) == book_for(entries, other),
{
    let after = watch_entries(entries, name);
    lemma_find_stream(entries, name);
    lemma_find_stream(entries, other);
    match find_stream(entries, name) {
        Some(i) => {
            assert forall|j: int| 0 <= j < i implies #[trigger] after[j].0 != name by {
                assert(after[j] == entries[j]);
            }
            lemma_find_stream_first(after, name, i);
        },
        None => {
            let i = entries.len() as int;
            assert forall|j: int| 0 <= j < i implies #[trigger] after[j].0 != name by {
                assert(after[j] == entries[j]);
            }
            lemma_find_stream_first(after, name, i);
        },
    }
    if other != name {
        match find_stream(entries, other) {
            Some(k) => {
                assert forall|j: int| 0 <= j < k implies #[trigger] after[j].0 != other by {
                    if j != find_stream(entries, name)->0 || find_stream(entries, name) is None {
                        assert(after[j] == entries[j]);
                    }
                }
                assert(after[k] == entries[k]);
                lemma_find_stream_first(after, other, k);
            },
            None => {
                assert forall|j: int| 0 <= j < after.len() implies #[trigger] after[j].0 != other by {
                    if j < entries.len() && (find_stream(entries, name) is None || j
                        != find_stream(entries, name)->0) {
                        assert(after[j] == entries[j]);
                    }
                }
                lemma_find_stream_none(after, other);
            },
        }
    }
}

/// Where a stream is found depends on the names of the entries alone.
pub proof fn lemma_find_stream_names(a: StreamsView, b: StreamsView, name: Seq<char>)
    requires
        a.len() == b.len(),
        forall|j: int| 0 <= j < a.len() ==> #[trigger] a[j].0 == b[j].0,
    ensures
        find_stream(a, name) == find_stream(b, name),
    decreases a.len(),
{
    if a.len() > 0 {
        let ia = a.drop_last();
        let ib = b.drop_last();
        assert forall|j: int| 0 <= j < ia.len() implies #[trigger] ia[j].0 == ib[j].0 by {
            assert(ia[j] == a[j]);
            assert(ib[j] == b[j]);
        }
        lemma_find_stream_names(ia, ib, name);
        assert(a.last().0 == b.last().0) by {
            assert(a[a.len() - 1].0 == b[b.len() - 1].0);
        }
    }
}

/// The books after the book of a followed stream is replaced; nothing
/// changes when the stream is not followed.
pub open spec fn replace_book(entries: StreamsView, name: Seq<char>, book: OrderbookView) -> StreamsView {
    match find_stream(entries, name) {
        Some(i) => entries.update(i, (name, book)),
        None => entries,
    }
}

/// The content of a book after an order-book message: a snapshot replaces
/// both sides, a delta applies its levels; either way the book takes the
/// message's timestamp.
pub open spec fn book_after(
    book: OrderbookView,
    snapshot: bool,
    timestamp: u64,
    bids: Seq<(u64, u64)>,
    asks: Seq<(u64, u64)>,
) -> OrderbookView {
    if snapshot {
        OrderbookView { timestamp, bids: level_map(bids), asks: level_map(asks) }
    } else {
        OrderbookView {
            timestamp,
            bids: apply_levels(book.bids, bids),
            asks: apply_levels(book.asks, asks),
        }
    }
}

/// A snapshot leaves a book with exactly the snapshot's levels and
/// timestamp, whatever the book held before; a delta applies its levels to
/// the book before it.
pub proof fn lemma_book_after(
    before: OrderbookView,
    other_before: OrderbookView,
    timestamp: u64,
    bids: Seq<(u64, u64)>,
    asks: Seq<(u64, u64)>,
)
    ensures
        book_after(before, true, timestamp, bids, asks) == book_after(
            other_before,
            true,
            timestamp,
            bids,
            asks,
        ),
        book_after(before, true, timestamp, bids, asks) == (OrderbookView {
            timestamp,
            bids: level_map(bids),
            asks: level_map(asks),
        }),
        book_after(before, false, timestamp, bids, asks) == (OrderbookView {
            timestamp,
            bids: apply_levels(before.bids, bids),
            asks: apply_levels(before.asks, asks),
        }),
{
}

/// A snapshot applied to a followed stream leaves that stream with exactly
/// the snapshot's levels and timestamp.
pub proof fn lemma_snapshot_update_book_for(
    entries: StreamsView,
    stream: Seq<char>,
    timestamp: u64,
    bids: Seq<(u64, u64)>,
    asks: Seq<(u64, u64)>,
)
    requires
        (book_for(entries, stream) is Some),
    ensures
        book_for(
            replace_book(
                entries,
                stream,
                book_after(book_for(entries, stream)->0, true, timestamp, bids, asks),
            ),
            stream,
        ) == Some((OrderbookView { timestamp, bids: level_map(bids), asks: level_map(asks) })),
{
    let b = book_for(entries, stream)->0;
    lemma_book_after(b, b, timestamp, bids, asks);
    lemma_replace_book_for(entries, stream, book_after(b, true, timestamp, bids, asks), stream);
}

/// The stream names that a watcher follows are, symbol for symbol, the
/// order-book stream names of the symbols at the depth asked for.
pub proof fn lemma_orderbook_stream_names(
    category: BybitCategory,
    symbols: Seq<String>,
    depth: Option<u16>,
)
    ensures
        orderbook_stream_names(category, symbols, depth).len() == symbols.len(),
        forall|i: int|
            0 <= i < symbols.len() ==> #[trigger] orderbook_stream_names(category, symbols, depth)[i]
                == orderbook_stream_name(category, symbols[i]@, depth),
{
}

/// Replacing the book of a followed stream gives that stream the new book
/// and leaves the books of all other streams as they were.
pub proof fn lemma_replace_book_for(
    entries: StreamsView,
    name: Seq<char>,
    book: OrderbookView,
    other: Seq<char>,
)
    ensures
        book_for(entries, name) is Some ==> book_for(replace_book(entries, name, book), name) == Some(
            book,
        ),
        book_for(entries, name) is None ==> replace_book(entries, name, book) == entries,
        other != name ==> book_for(replace_book(entries, name, book), other) == book_for(
            entries,
            other,
        ),
{
    let after = replace_book(entries, name, book);
    lemma_find_stream(entries, name);
    lemma_find_stream(entries, other);
    if find_stream(entries, name) is Some {
        let i = find_stream(entries, name)->0;
        assert forall|j: int| 0 <= j < entries.len() implies #[trigger] entries[j].0 == after[j].0 by {}
        lemma_find_stream_names(entries, after, name);
        lemma_find_stream_names(entries, after, other);
        if other != name {
            if find_stream(entries, other) is Some {
                let k = find_stream(entries, other)->0;
                assert(k != i);
            }
        }
    }
}

/// The books after the streams are followed one after the other.
pub open spec fn watch_all(entries: StreamsView, names: Seq<Seq<char>>) -> StreamsView
    decreases names.len(),
{
    if names.len() == 0 {
        entries
    } else {
        watch_entries(watch_all(entries, names.drop_last()), names.last())
    }
}

/// The order-book stream names of the symbols, in their order.
pub open spec fn orderbook_stream_names(
    category: BybitCategory,
    symbols: Seq<String>,
    depth: Option<u16>,
) -> Seq<Seq<char>> {
    symbols.map_values(|s: String| orderbook_stream_name(category, s@, depth))
}

/// What a watcher of order books does with a text message.
pub enum OrderbookAction {
    /// Nothing: the message names no topic, or a stream not followed.
    Ignore,
    /// Stop: the message mentions a topic but names no stream.
    Malformed,
    /// Read the message's levels and apply them to the book of the
    /// stream, as a snapshot or as a delta.
    Apply { stream: String, snapshot: bool },
}

/// The order books of the followed streams.
pub struct OrderbookStreams {
    entries: Vec<(String, FinalOrderbook)>,
}

impl View for OrderbookStreams {
    type V = StreamsView;

    closed spec fn view(&self) -> StreamsView {
        self.entries@.map_values(|e: (String, FinalOrderbook)| (e.0@, e.1@))
    }
}

impl OrderbookStreams {
    /// No stream followed yet.
    pub fn new() -> (s: Self)
        ensures
            s@ == Seq::<(Seq<char>, OrderbookView)>::empty(),
    {
        let s = OrderbookStreams { entries: Vec::new() };
        assert(s@ =~= Seq::<(Seq<char>, OrderbookView)>::empty());
        s
    }

    fn position(&self, name: &String) -> (res: Option<usize>)
        ensures
            match res {
                Some(i) => find_stream(self@, name@) == Some(i as int),
                None => find_stream(self@, name@) is None,
            },
            res matches Some(i) ==> i < self.entries.len(),
    {
        let mut i: usize = 0;
        proof {
            lemma_find_stream(self@, name@);
        }
        while i < self.entries.len()
            invariant
                i <= self.entries.len(),
                forall|j: int| 0 <= j < i ==> #[trigger] self@[j].0 != name@,
            decreases self.entries.len() - i,
        {
            if self.entries[i].0 == *name {
                proof {
                    lemma_find_stream(self@, name@);
                    assert(self@[i as int].0 == name@);
                }
                return Some(i);
            }
            assert(self@[i as int].0 != name@);
            i = i + 1;
        }
        None
    }

    /// Follows a stream with an empty book; a stream followed already gets
    /// its book emptied.
    pub fn watch(&mut self, stream: String)
        ensures
            final(self)@ == watch_entries(old(self)@, stream@),
    {
        let book = FinalOrderbook::new();
        match self.position(&stream) {
            Some(i) => {
                let ghost name = stream@;
                self.entries.set(i, (stream, book));
                assert(self@ =~= old(self)@.update(i as int, (name, empty_book())));
            },
            None => {
                let ghost name = stream@;
                self.entries.push((stream, book));
                assert(self@ =~= old(self)@.push((name, empty_book())));
            },
        }
    }

    /// Applies an order-book message to the book of its stream, as a
    /// snapshot or as a delta; a message of a stream not followed changes
    /// nothing. Returns whether the stream is followed.
    pub fn apply_update(&mut self, stream: &str, snapshot: bool, update: &OrderbookUpdate) -> (found:
        bool)
        ensures
            found == book_for(old(self)@, stream@) is Some,
            final(self)@ == match book_for(old(self)@, stream@) {
                Some(book) => replace_book(
                    old(self)@,
                    stream@,
                    book_after(book, snapshot, update.timestamp, update.bids@, update.asks@),
                ),
                None => old(self)@,
            },
    {
        let name = stream.to_string();
        match self.position(&name) {
            Some(i) => {
                proof {
                    lemma_find_stream(self@, stream@);
                }
                if snapshot {
                    self.entries[i].1.update_snapshot(update);
                } else {
                    self.entries[i].1.update_delta(update);
                }
                assert(self@ =~= old(self)@.update(i as int, (stream@, self@[i as int].1)));
                true
            },
            None => false,
        }
    }

    /// The quantities of the first `depth` bid and ask levels of the book
    /// of a stream, if the stream is followed.
    pub fn depth_quantities(&self, stream: &str, depth: usize) -> (q: Option<(Vec<u64>, Vec<u64>)>)
        ensures
            match book_for(self@, stream@) {
                Some(book) => q matches Some(sides) && sides.0@ == top_quantities(
                    book.bids,
                    depth as nat,
                ) && sides.1@ == top_quantities(book.asks, depth as nat),
                None => q is None,
            },
    {
        let name = stream.to_string();
        match self.position(&name) {
            Some(i) => Some(self.entries[i].1.depth_quantities(depth)),
            None => None,
        }
    }

    /// The order-book streams of the symbols, and an empty book for each,
    /// as a watcher sets them up before it subscribes.
    pub fn follow(category: BybitCategory, symbols: &Vec<String>, depth: Option<u16>) -> (res: (
        Vec<String>,
        Self,
    ))
        ensures
            res.0@.map_values(|s: String| s@) == orderbook_stream_names(category, symbols@, depth),
            res.0@.len() == symbols@.len(),
            forall|i: int|
                0 <= i < symbols@.len() ==> #[trigger] res.0@[i]@ == orderbook_stream_name(
                    category,
                    symbols@[i]@,
                    depth,
                ),
            res.1@ == watch_all(Seq::empty(), orderbook_stream_names(category, symbols@, depth)),
    {
        let ghost names = orderbook_stream_names(category, symbols@, depth);
        let mut streams: Vec<String> = Vec::new();
        let mut books = OrderbookStreams::new();
        let mut i: usize = 0;
        while i < symbols.len()
            invariant
                i <= symbols.len(),
                names == orderbook_stream_names(category, symbols@, depth),
                streams@.map_values(|s: String| s@) == names.take(i as int),
                books@ == watch_all(Seq::empty(), names.take(i as int)),
            decreases symbols.len() - i,
        {
            let stream = orderbook_stream(category, symbols[i].as_str(), depth);
            streams.push(stream.clone());
            books.watch(stream);
            assert(names.take(i + 1).drop_last() =~= names.take(i as int));
            assert(streams@.map_values(|s: String| s@) =~= names.take(i + 1));
            i = i + 1;
        }
        assert(names.take(symbols.len() as int) =~= names);
        proof {
            lemma_orderbook_stream_names(category, symbols@, depth);
            assert forall|i: int| 0 <= i < symbols@.len() implies #[trigger] streams@[i]@
                == orderbook_stream_name(category, symbols@[i]@, depth) by {
                assert(streams@.map_values(|s: String| s@)[i] == streams@[i]@);
            }
        }
        (streams, books)
    }

    /// Decides what to do with a text message of the order-book streams.
    pub fn next_action(&self, text: &str) -> (action: OrderbookAction)
        ensures
            match action {
                OrderbookAction::Ignore => !contains_text(text@, "topic"@) || {
                    &&& nth_piece(text@, '"', 3) matches Some(stream)
                    &&& find_stream(self@, stream) is None
                },
                OrderbookAction::Malformed => contains_text(text@, "topic"@) && nth_piece(
                    text@,
                    '"',
                    3,
                ) is None,
                OrderbookAction::Apply { stream, snapshot } => {
                    &&& contains_text(text@, "topic"@)
                    &&& nth_piece(text@, '"', 3) == Some(stream@)
                    &&& find_stream(self@, stream@) is Some
                    &&& snapshot == contains_text(text@, "snapshot"@)
                },
            },
    {
        match message_topic(text) {
            TopicMessage::NoTopic => OrderbookAction::Ignore,
            TopicMessage::Malformed => OrderbookAction::Malformed,
            TopicMessage::Topic(stream) => {
                if self.is_watched(stream.as_str()) {
                    let snapshot = is_snapshot_message(text);
                    OrderbookAction::Apply { stream, snapshot }
                } else {
                    OrderbookAction::Ignore
                }
            },
        }
    }

    /// Whether a stream is followed.
    pub fn is_watched(&self, stream: &str) -> (b: bool)
        ensures
            b == find_stream(self@, stream@) is Some,
    {
        let name = stream.to_string();
        self.position(&name).is_some()
    }
}

} // verus!
