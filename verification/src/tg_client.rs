use vstd::prelude::*;

use crate::error::Error;
use crate::types::{Channel, ChatInfo, ChatKind};
use crate::download_queue::{
    after_mark_as_done, after_may_be_download, no_idle_slot, within_capacity, DownloadQueue,
    QueueState,
};

verus! {

/// A request to download a file, with the settings the collector sends.
#[derive(Debug, Clone, Copy, PartialEq, Eq, Structural)]
pub struct DownloadRequest {
    pub file_id: i64,
    /// From 1 to 32; the higher, the sooner the file is downloaded.
    pub priority: i64,
    /// Whether the answer waits for the end of the download.
    pub synchronous: bool,
}

/// The request by which the collector downloads a file: asynchronous, at
/// the lowest priority.
pub open spec fn download_request(file_id: i64) -> DownloadRequest {
    DownloadRequest { file_id, priority: 1, synchronous: false }
}

/// The request for a file is for that very file, asynchronous, at priority 1.
pub proof fn law_download_request_is_for_the_file(file_id: i64)
    ensures
        download_request(file_id).file_id == file_id,
        download_request(file_id).priority == 1,
        !download_request(file_id).synchronous,
{
}

/// The request by which the collector downloads file `file_id`.
pub fn make_download_file_request(file_id: i64) -> (r: DownloadRequest)
    ensures
        r == download_request(file_id),
        r.file_id == file_id,
        r.priority == 1,
        !r.synchronous,
{
    DownloadRequest { file_id, priority: 1, synchronous: false }
}

/// Asks the queue for the download of `file_id`; the result is the request
/// to send where the download starts at once, and `None` where it waits.
pub fn download_file(queue: &mut DownloadQueue, file_id: i64) -> (request: Option<DownloadRequest>)
    ensures
        final(queue)@ == after_may_be_download(old(queue)@, file_id).0,
        request == (if after_may_be_download(old(queue)@, file_id).1 {
            Some(download_request(file_id))
        } else {
            None
        }),
        request is Some <==> old(queue)@.in_progress.len() < old(queue)@.queue_size,
        request matches Some(r) ==> r.file_id == file_id && r.priority == 1 && !r.synchronous,
{
    if queue.may_be_download(file_id) {
        Some(make_download_file_request(file_id))
    } else {
        None
    }
}

/// What the collector does on news of a file.
#[derive(Debug, Clone, Copy, PartialEq, Eq, Structural)]
pub struct FileUpdateAction {
    /// The download to start in place of the one that finished.
    pub download: Option<DownloadRequest>,
    /// Whether the finished download is passed on to the listener.
    pub notify_downloaded: bool,
}

/// The state of the queue after news of file `file_id`, the file whose
/// download then starts, and whether the news is passed on: only the end of
/// a download that the queue runs counts; any other news changes nothing.
pub open spec fn after_file_update(q: QueueState, file_id: i64, downloading_completed: bool) -> (
    QueueState,
    Option<i64>,
    bool,
) {
    if downloading_completed && q.in_progress.contains(file_id) {
        (after_mark_as_done(q, file_id).0, after_mark_as_done(q, file_id).1, true)
    } else {
        (q, None, false)
    }
}

/// Handles news of file `file_id`: where its download has completed and the
/// queue runs it, the queue is told, the next waiting file, if any, starts,
/// and the news is passed on.
pub fn on_update_file(queue: &mut DownloadQueue, file_id: i64, downloading_completed: bool) -> (action: FileUpdateAction)
    ensures
        final(queue)@ == after_file_update(old(queue)@, file_id, downloading_completed).0,
        action.download == (match after_file_update(old(queue)@, file_id, downloading_completed).1 {
            Some(f) => Some(download_request(f)),
            None => None,
        }),
        action.notify_downloaded == after_file_update(old(queue)@, file_id, downloading_completed).2,
        action.notify_downloaded <==> downloading_completed && old(queue)@.in_progress.contains(file_id),
        action.download is Some <==> downloading_completed && old(queue)@.in_progress.contains(file_id)
            && old(queue)@.queue.len() > 0,
        action.download matches Some(r) ==> r.file_id == old(queue)@.queue[0] && r.priority == 1
            && !r.synchronous,
{
    if !downloading_completed {
        return FileUpdateAction { download: None, notify_downloaded: false };
    }
    if !queue.is_in_progress(&file_id) {
        return FileUpdateAction { download: None, notify_downloaded: false };
    }
    let download = match queue.mark_as_done_and_get_new(&file_id) {
        Some(next) => Some(make_download_file_request(next)),
        None => None,
    };
    FileUpdateAction { download, notify_downloaded: true }
}

/// News that a download the queue runs has completed starts the file at the
/// front of the waiting line, if any, and passes the news on; any other news
/// starts nothing, passes nothing on and leaves the queue as it is. The file
/// started leaves the line and joins the downloads in progress, and the
/// completed file is no longer among them.
pub proof fn law_file_update_starts_the_next_file(q: QueueState, file_id: i64, downloading_completed: bool)
    ensures
        after_file_update(q, file_id, downloading_completed).1 == (if downloading_completed
            && q.in_progress.contains(file_id) && q.queue.len() > 0 {
            Some(q.queue[0])
        } else {
            None
        }),
        after_file_update(q, file_id, downloading_completed).2 == (downloading_completed
            && q.in_progress.contains(file_id)),
        !(downloading_completed && q.in_progress.contains(file_id)) ==> after_file_update(
            q,
            file_id,
            downloading_completed,
        ).0 == q,
        downloading_completed && q.in_progress.contains(file_id) ==> {
            let next = after_file_update(q, file_id, downloading_completed).0;
            &&& !next.in_progress.contains(file_id) || (q.queue.len() > 0 && q.queue[0] == file_id)
            &&& q.queue.len() > 0 ==> next.queue == q.queue.subrange(1, q.queue.len() as int)
                && next.in_progress.last() == q.queue[0]
            &&& q.queue.len() == 0 ==> next.queue == q.queue
        },
{
    broadcast use vstd::seq_lib::group_to_multiset_ensures;

    if downloading_completed && q.in_progress.contains(file_id) {
        crate::download_queue::lemma_without(q.in_progress, file_id);
        let kept = crate::download_queue::without(q.in_progress, file_id);
        if kept.contains(file_id) {
            assert(kept.to_multiset().count(file_id) > 0);
        }
        if q.queue.len() > 0 && q.queue[0] != file_id {
            let next = after_file_update(q, file_id, downloading_completed).0;
            assert(next.in_progress == kept.push(q.queue[0]));
            if next.in_progress.contains(file_id) {
                let j = choose|j: int| 0 <= j < next.in_progress.len() && next.in_progress[j] == file_id;
                assert(j < kept.len());
                assert(kept[j] == file_id);
            }
        }
    }
}

/// News of a file never runs more downloads than the queue allows; where
/// the file ran at most once, no file is left waiting while a download
/// could run.
pub proof fn law_file_update_keeps_invariants(q: QueueState, file_id: i64, downloading_completed: bool)
    ensures
        within_capacity(q) ==> within_capacity(after_file_update(q, file_id, downloading_completed).0),
        q.in_progress.to_multiset().count(file_id) <= 1 && no_idle_slot(q) ==> no_idle_slot(
            after_file_update(q, file_id, downloading_completed).0,
        ),
{
    broadcast use vstd::seq_lib::group_to_multiset_ensures;

    if downloading_completed && q.in_progress.contains(file_id) {
        crate::download_queue::law_mark_as_done_keeps_invariants(q, file_id);
    }
}

/// What happens to the download queue of a client: a download is asked
/// for, or news of a file comes in.
pub enum QueueEvent {
    Download { file_id: i64 },
    FileUpdate { file_id: i64, downloading_completed: bool },
}

/// The state of the download queue after one event.
pub open spec fn after_event(q: QueueState, event: QueueEvent) -> QueueState {
    match event {
        QueueEvent::Download { file_id } => after_may_be_download(q, file_id).0,
        QueueEvent::FileUpdate { file_id, downloading_completed } => after_file_update(
            q,
            file_id,
            downloading_completed,
        ).0,
    }
}

/// The state of the download queue after some events, in order.
pub open spec fn after_events(q: QueueState, events: Seq<QueueEvent>) -> QueueState
    decreases events.len(),
{
    if events.len() == 0 {
        q
    } else {
        after_event(after_events(q, events.drop_last()), events.last())
    }
}

/// Whatever downloads a client asks for and whatever news of files comes
/// in, its queue never runs more downloads at a time than it was made for.
pub proof fn law_client_never_exceeds_capacity(queue_size: usize, events: Seq<QueueEvent>)
    ensures
        within_capacity(
            after_events(
                QueueState { queue_size, queue: Seq::empty(), in_progress: Seq::empty() },
                events,
            ),
        ),
    decreases events.len(),
{
    if events.len() > 0 {
        let q = after_events(
            QueueState { queue_size, queue: Seq::empty(), in_progress: Seq::empty() },
            events.drop_last(),
        );
        law_client_never_exceeds_capacity(queue_size, events.drop_last());
        match events.last() {
            QueueEvent::Download { file_id } => {
                crate::download_queue::law_may_be_download_keeps_invariants(q, file_id);
            },
            QueueEvent::FileUpdate { file_id, downloading_completed } => {
                law_file_update_keeps_invariants(q, file_id, downloading_completed);
            },
        }
    }
}

/// The supergroup to look up for a chat: a chat is a channel, and its
/// supergroup is looked up, only where it is a supergroup marked as a
/// channel.
pub fn channel_supergroup_id(chat: &ChatInfo) -> (r: Option<i64>)
    ensures
        r == (match chat.kind {
            ChatKind::Supergroup { supergroup_id, is_channel } => if is_channel {
                Some(supergroup_id)
            } else {
                None
            },
            ChatKind::Other => None,
        }),
{
    match chat.kind {
        ChatKind::Supergroup { supergroup_id, is_channel } => {
            if is_channel {
                Some(supergroup_id)
            } else {
                None
            }
        },
        ChatKind::Other => None,
    }
}

/// The first error among the lookups of some chats, if any.
pub open spec fn first_error(rs: Seq<Result<Option<Channel>, Error>>) -> Option<Error>
    decreases rs.len(),
{
    if rs.len() == 0 {
        None
    } else {
        match first_error(rs.drop_last()) {
            Some(e) => Some(e),
            None => match rs.last() {
                Err(e) => Some(e),
                Ok(_) => None,
            },
        }
    }
}

/// The channels that the lookups of some chats found, in the order of the
/// chats.
pub open spec fn found_channels(rs: Seq<Result<Option<Channel>, Error>>) -> Seq<Channel>
    decreases rs.len(),
{
    if rs.len() == 0 {
        Seq::empty()
    } else {
        match rs.last() {
            Ok(Some(c)) => found_channels(rs.drop_last()).push(c),
            _ => found_channels(rs.drop_last()),
        }
    }
}

/// The first error of some lookups: there is none exactly where every
/// lookup succeeded; where one failed, it is the error of the earliest that
/// failed.
pub proof fn law_first_error_is_the_earliest(rs: Seq<Result<Option<Channel>, Error>>)
    ensures
        first_error(rs) is None <==> forall|j: int| 0 <= j < rs.len() ==> #[trigger] rs[j] is Ok,
        first_error(rs) matches Some(e) ==> exists|k: int|
            0 <= k < rs.len() && #[trigger] rs[k] == Err::<Option<Channel>, Error>(e) && forall|j: int|
                0 <= j < k ==> #[trigger] rs[j] is Ok,
    decreases rs.len(),
{
    if rs.len() > 0 {
        let init = rs.drop_last();
        law_first_error_is_the_earliest(init);
        assert forall|j: int| 0 <= j < init.len() implies init[j] == rs[j] by {}
        match first_error(init) {
            Some(e) => {
                let k = choose|k: int|
                    0 <= k < init.len() && #[trigger] init[k] == Err::<Option<Channel>, Error>(e)
                        && forall|j: int| 0 <= j < k ==> #[trigger] init[j] is Ok;
                assert(rs[k] == init[k]);
                assert forall|j: int| 0 <= j < k implies #[trigger] rs[j] is Ok by {
                    assert(init[j] is Ok);
                }
                assert(!(init[k] is Ok));
            },
            None => {
                match rs.last() {
                    Err(e) => {
                        let k = rs.len() - 1;
                        assert(rs[k] == Err::<Option<Channel>, Error>(e));
                        assert forall|j: int| 0 <= j < k implies #[trigger] rs[j] is Ok by {
                            assert(init[j] is Ok);
                        }
                    },
                    Ok(_) => {
                        assert forall|j: int| 0 <= j < rs.len() implies #[trigger] rs[j] is Ok by {
                            if j < rs.len() - 1 {
                                assert(init[j] is Ok);
                            }
                        }
                    },
                }
            },
        }
    }
}

/// The channels found by some lookups: a lookup that found a channel gives
/// that very channel, whatever its fields; one that found none, or failed,
/// gives nothing; and the lookups of two runs of chats, one after the other,
/// give the channels of the first followed by those of the second.
pub proof fn law_found_channels_keeps_every_channel(
    rs: Seq<Result<Option<Channel>, Error>>,
    more: Seq<Result<Option<Channel>, Error>>,
    c: Channel,
    e: Error,
)
    ensures
        found_channels(seq![Ok(Some(c))]) == seq![c],
        found_channels(seq![Ok(None)]) == Seq::<Channel>::empty(),
        found_channels(seq![Err(e)]) == Seq::<Channel>::empty(),
        found_channels(Seq::empty()) == Seq::<Channel>::empty(),
        found_channels(rs + more) == found_channels(rs) + found_channels(more),
    decreases more.len(),
{
    let one: Seq<Result<Option<Channel>, Error>> = seq![Ok(Some(c))];
    assert(one.drop_last() =~= Seq::<Result<Option<Channel>, Error>>::empty());
    let none: Seq<Result<Option<Channel>, Error>> = seq![Ok(None)];
    assert(none.drop_last() =~= Seq::<Result<Option<Channel>, Error>>::empty());
    let err: Seq<Result<Option<Channel>, Error>> = seq![Err(e)];
    assert(err.drop_last() =~= Seq::<Result<Option<Channel>, Error>>::empty());
    let nothing = Seq::<Result<Option<Channel>, Error>>::empty();
    assert(found_channels(nothing) == Seq::<Channel>::empty());
    assert(one.last() == Ok::<Option<Channel>, Error>(Some(c)));
    assert(found_channels(one) == found_channels(nothing).push(c));
    assert(found_channels(one) =~= seq![c]);
    assert(none.last() == Ok::<Option<Channel>, Error>(None));
    assert(err.last() == Err::<Option<Channel>, Error>(e));
    if more.len() == 0 {
        assert(rs + more =~= rs);
        assert(found_channels(rs) + found_channels(more) =~= found_channels(rs));
    } else {
        law_found_channels_keeps_every_channel(rs, more.drop_last(), c, e);
        assert((rs + more).drop_last() =~= rs + more.drop_last());
        assert((rs + more).last() == more.last());
        match more.last() {
            Ok(Some(d)) => {
                assert(found_channels(rs + more) =~= found_channels(rs) + found_channels(more));
            },
            _ => {},
        }
    }
}

/// Gathers the results of the lookups of some chats: the first error, where
/// one failed; else the channels found, in the order of the chats, the
/// chats that are not channels left out.
pub fn collect_channels(results: Vec<Result<Option<Channel>, Error>>) -> (r: Result<Vec<Channel>, Error>)
    ensures
        match r {
            Ok(channels) => first_error(results@) is None && channels@ == found_channels(results@),
            Err(e) => first_error(results@) == Some(e),
        },
{
    let ghost all = results@;
    let mut channels: Vec<Channel> = Vec::new();
    let mut rest = results;
    let mut i: usize = 0;
    let count = rest.len();
    proof {
        assert(all.skip(0) =~= all);
        assert(all.take(0) =~= Seq::<Result<Option<Channel>, Error>>::empty());
    }
    while rest.len() > 0
        invariant
            all == results@,
            all.len() == count,
            i + rest@.len() == all.len(),
            rest@ == all.skip(i as int),
            first_error(all.take(i as int)) is None,
            channels@ == found_channels(all.take(i as int)),
        decreases rest@.len(),
    {
        let next = rest.remove(0);
        proof {
            assert(next == all[i as int]);
            assert(rest@ =~= all.skip(i + 1));
            assert(all.take(i + 1).drop_last() =~= all.take(i as int));
            assert(all.take(i + 1).last() == all[i as int]);
        }
        match next {
            Err(e) => {
                proof {
                    assert(first_error(all.take(i + 1)) == Some(e));
                    lemma_first_error_prefix(all, i as int + 1);
                }
                return Err(e);
            },
            Ok(None) => {},
            Ok(Some(c)) => {
                channels.push(c);
            },
        }
        i += 1;
    }
    proof {
        assert(all.take(i as int) =~= all);
    }
    Ok(channels)
}

/// An error among the first `n` lookups is the first error of them all.
proof fn lemma_first_error_prefix(rs: Seq<Result<Option<Channel>, Error>>, n: int)
    requires
        0 <= n <= rs.len(),
        first_error(rs.take(n)) is Some,
    ensures
        first_error(rs) == first_error(rs.take(n)),
    decreases rs.len() - n,
{
    if n < rs.len() {
        assert(rs.take(n + 1).drop_last() =~= rs.take(n));
        lemma_first_error_prefix(rs, n + 1);
    } else {
        assert(rs.take(n) =~= rs);
    }
}

/// A request for the list of chats: the first `limit` ones, from the top of
/// the list.
#[derive(Debug, Clone, Copy, PartialEq, Eq, Structural)]
pub struct ChatsRequest {
    pub limit: i64,
    pub offset_order: i64,
}

/// The request by which the collector lists the first `limit` chats.
pub fn chats_request(limit: i64) -> (r: ChatsRequest)
    ensures
        r == (ChatsRequest { limit, offset_order: i64::MAX }),
{
    ChatsRequest { limit, offset_order: 9223372036854775807 }
}

/// What the walk back through a chat's history reads of a message.
#[derive(Debug, Clone, Copy, PartialEq, Eq, Structural)]
pub struct MessageStamp {
    pub id: i64,
    /// When the message was sent, in seconds since the Unix epoch.
    pub date: i64,
}

/// A request for a page of a chat's history: up to `limit` messages from
/// message `from_message_id` back.
#[derive(Debug, Clone, Copy, PartialEq, Eq, Structural)]
pub struct ChatHistoryRequest {
    pub chat_id: i64,
    pub from_message_id: i64,
    pub offset: i64,
    pub limit: i64,
}

/// Where the walk back through a chat's history starts: at the newest
/// message.
pub const HISTORY_START: i64 = 9223372036854775807;

/// The request for the page of the history of chat `chat_id` that the walk
/// reads from message `from_message_id` back: ten messages at a time.
pub fn history_page_request(chat_id: i64, from_message_id: i64) -> (r: ChatHistoryRequest)
    ensures
        r == (ChatHistoryRequest { chat_id, from_message_id, offset: 0, limit: 10 }),
{
    ChatHistoryRequest { chat_id, from_message_id, offset: 0, limit: 10 }
}

/// Whether the walk keeps a message of a page: it keeps those sent at
/// `date` or later.
pub open spec fn is_recent(m: Option<MessageStamp>, date: i64) -> bool {
    match m {
        Some(stamp) => stamp.date >= date,
        None => false,
    }
}

/// The positions in a page of the messages that the walk keeps, in order.
pub open spec fn kept_positions(msgs: Seq<Option<MessageStamp>>, date: i64) -> Seq<usize>
    decreases msgs.len(),
{
    if msgs.len() == 0 {
        Seq::empty()
    } else if is_recent(msgs.last(), date) {
        kept_positions(msgs.drop_last(), date).push((msgs.len() - 1) as usize)
    } else {
        kept_positions(msgs.drop_last(), date)
    }
}

/// Where the walk goes on from after a page: the oldest message kept, where
/// it is older than `from_message_id`; else `from_message_id`.
pub open spec fn next_from_message_id(msgs: Seq<Option<MessageStamp>>, date: i64, from_message_id: i64) -> i64
    decreases msgs.len(),
{
    if msgs.len() == 0 {
        from_message_id
    } else {
        let before = next_from_message_id(msgs.drop_last(), date, from_message_id);
        match msgs.last() {
            Some(m) => if m.date >= date && m.id < before {
                m.id
            } else {
                before
            },
            None => before,
        }
    }
}

/// What the walk back through a chat's history does with a page.
#[derive(Debug)]
pub enum HistoryStep {
    /// Hand out the messages at these positions of the page, and read the
    /// next page from `next_from_message_id` back.
    Page { kept: Vec<usize>, next_from_message_id: i64 },
    /// Hand out the error, and read the same page again, from
    /// `from_message_id` back.
    Failed { error: Error, from_message_id: i64 },
    /// The walk is over.
    Finished,
}

/// Decides what the walk back through a chat's history does with the page
/// it read from `from_message_id` back, keeping the messages sent at `date`
/// or later: an error is handed out and the same page is read again; a page
/// with nothing to keep ends the walk.
pub fn history_step(page: Result<Vec<Option<MessageStamp>>, Error>, date: i64, from_message_id: i64) -> (step: HistoryStep)
    ensures
        match page {
            Err(e) => step == (HistoryStep::Failed { error: e, from_message_id }),
            Ok(msgs) => if kept_positions(msgs@, date).len() == 0 {
                step is Finished
            } else {
                step matches HistoryStep::Page { kept, next_from_message_id: next }
                    && kept@ == kept_positions(msgs@, date)
                    && next == next_from_message_id(msgs@, date, from_message_id)
            },
        },
{
    match page {
        Err(e) => HistoryStep::Failed { error: e, from_message_id },
        Ok(msgs) => {
            let mut kept: Vec<usize> = Vec::new();
            let mut next = from_message_id;
            let mut i: usize = 0;
            while i < msgs.len()
                invariant
                    i <= msgs@.len(),
                    kept@ == kept_positions(msgs@.take(i as int), date),
                    next == next_from_message_id(msgs@.take(i as int), date, from_message_id),
                decreases msgs@.len() - i,
            {
                proof {
                    assert(msgs@.take(i + 1).drop_last() =~= msgs@.take(i as int));
                    assert(msgs@.take(i + 1).last() == msgs@[i as int]);
                }
                match msgs[i] {
                    Some(m) => {
                        if m.date >= date {
                            if m.id < next {
                                next = m.id;
                            }
                            kept.push(i);
                        }
                    },
                    None => {},
                }
                i += 1;
            }
            proof {
                assert(msgs@.take(i as int) =~= msgs@);
            }
            if kept.len() == 0 {
                HistoryStep::Finished
            } else {
                HistoryStep::Page { kept, next_from_message_id: next }
            }
        },
    }
}

/// The walk keeps exactly the messages of a page sent at the given date or
/// later, each once, in the order of the page.
pub proof fn law_history_keeps_recent_messages(msgs: Seq<Option<MessageStamp>>, date: i64)
    requires
        msgs.len() <= usize::MAX,
    ensures
        forall|k: int|
            0 <= k < kept_positions(msgs, date).len() ==> {
                let p = #[trigger] kept_positions(msgs, date)[k];
                p < msgs.len() && is_recent(msgs[p as int], date)
            },
        forall|k: int, l: int|
            0 <= k < l < kept_positions(msgs, date).len() ==> #[trigger] kept_positions(msgs, date)[k]
                < #[trigger] kept_positions(msgs, date)[l],
        forall|j: int|
            0 <= j < msgs.len() && #[trigger] is_recent(msgs[j], date) ==> kept_positions(
                msgs,
                date,
            ).contains(j as usize),
    decreases msgs.len(),
{
    if msgs.len() > 0 {
        let init = msgs.drop_last();
        law_history_keeps_recent_messages(init, date);
        let before = kept_positions(init, date);
        let all = kept_positions(msgs, date);
        let last = (msgs.len() - 1) as usize;
        if is_recent(msgs.last(), date) {
            assert(all == before.push(last));
        } else {
            assert(all == before);
        }
        assert forall|k: int| 0 <= k < all.len() implies {
            let p = #[trigger] all[k];
            p < msgs.len() && is_recent(msgs[p as int], date)
        } by {
            if k < before.len() {
                assert(all[k] == before[k]);
                assert(before[k] < init.len() && is_recent(init[before[k] as int], date));
                assert(init[before[k] as int] == msgs[before[k] as int]);
            } else {
                assert(all[k] == last);
                assert(msgs[last as int] == msgs.last());
            }
        }
        assert forall|k: int, l: int| 0 <= k < l < all.len() implies #[trigger] all[k] < #[trigger] all[l] by {
            assert(all[k] == before[k]);
            assert(before[k] < init.len());
            if l < before.len() {
                assert(all[l] == before[l]);
            } else {
                assert(all[l] == last);
            }
        }
        assert forall|j: int|
            0 <= j < msgs.len() && #[trigger] is_recent(msgs[j], date) implies kept_positions(
            msgs,
            date,
        ).contains(j as usize) by {
            if j < msgs.len() - 1 {
                assert(init[j] == msgs[j]);
                let k = choose|k: int| 0 <= k < before.len() && before[k] == j as usize;
                if is_recent(msgs.last(), date) {
                    assert(kept_positions(msgs, date)[k] == j as usize);
                }
            } else {
                if is_recent(msgs.last(), date) {
                    assert(kept_positions(msgs, date)[before.len() as int] == j as usize);
                }
            }
        }
    }
}

/// The walk never moves forward: it goes on from a message no newer than
/// where it read from and than every message it kept, and that message is
/// where it read from or one that it kept.
pub proof fn law_history_moves_back(msgs: Seq<Option<MessageStamp>>, date: i64, from_message_id: i64)
    ensures
        next_from_message_id(msgs, date, from_message_id) <= from_message_id,
        forall|j: int|
            0 <= j < msgs.len() && #[trigger] is_recent(msgs[j], date) ==> next_from_message_id(
                msgs,
                date,
                from_message_id,
            ) <= msgs[j]->Some_0.id,
        next_from_message_id(msgs, date, from_message_id) == from_message_id || exists|j: int|
            0 <= j < msgs.len() && #[trigger] is_recent(msgs[j], date) && msgs[j]->Some_0.id
                == next_from_message_id(msgs, date, from_message_id),
    decreases msgs.len(),
{
    if msgs.len() > 0 {
        let init = msgs.drop_last();
        law_history_moves_back(init, date, from_message_id);
        assert forall|j: int|
            0 <= j < msgs.len() && #[trigger] is_recent(msgs[j], date) implies next_from_message_id(
            msgs,
            date,
            from_message_id,
        ) <= msgs[j]->Some_0.id by {
            if j < msgs.len() - 1 {
                assert(init[j] == msgs[j]);
            }
        }
        let next = next_from_message_id(msgs, date, from_message_id);
        if next != from_message_id {
            if next == next_from_message_id(init, date, from_message_id) {
                let j = choose|j: int|
                    0 <= j < init.len() && #[trigger] is_recent(init[j], date) && init[j]->Some_0.id
                        == next_from_message_id(init, date, from_message_id);
                assert(msgs[j] == init[j]);
            } else {
                assert(is_recent(msgs[msgs.len() - 1], date));
            }
        }
    }
}


/// The walk keeps exactly the messages of a page sent at the given date or
/// later, however much later: a position is kept exactly where the page
/// holds a message there whose date is at or after `date`; the positions
/// come in the order of the page, each once.
pub proof fn law_history_keeps_every_message_from_the_date(msgs: Seq<Option<MessageStamp>>, date: i64)
    requires
        msgs.len() <= usize::MAX,
    ensures
        forall|j: int|
            0 <= j < msgs.len() ==> (kept_positions(msgs, date).contains(j as usize) <==> (
            #[trigger] msgs[j] matches Some(m) && m.date >= date)),
        forall|k: int|
            0 <= k < kept_positions(msgs, date).len() ==> #[trigger] kept_positions(msgs, date)[k]
                < msgs.len(),
        forall|k: int, l: int|
            0 <= k < l < kept_positions(msgs, date).len() ==> #[trigger] kept_positions(msgs, date)[k]
                < #[trigger] kept_positions(msgs, date)[l],
{
    law_history_keeps_recent_messages(msgs, date);
    let kept = kept_positions(msgs, date);
    assert forall|j: int|
        0 <= j < msgs.len() implies (kept.contains(j as usize) <==> (#[trigger] msgs[j] matches Some(m)
        && m.date >= date)) by {
        if kept.contains(j as usize) {
            let k = choose|k: int| 0 <= k < kept.len() && kept[k] == j as usize;
            assert(is_recent(msgs[kept[k] as int], date));
        } else {
            assert(!is_recent(msgs[j], date));
        }
    }
}

/// The walk goes on from the oldest message it kept, where that is older
/// than where it read from, and else from where it read from: no newer than
/// either, and equal to one of them.
pub proof fn law_history_goes_on_from_the_oldest_kept(
    msgs: Seq<Option<MessageStamp>>,
    date: i64,
    from_message_id: i64,
)
    ensures
        next_from_message_id(msgs, date, from_message_id) <= from_message_id,
        forall|j: int|
            0 <= j < msgs.len() && #[trigger] msgs[j] is Some && msgs[j]->Some_0.date >= date
                ==> next_from_message_id(msgs, date, from_message_id) <= msgs[j]->Some_0.id,
        next_from_message_id(msgs, date, from_message_id) == from_message_id || exists|j: int|
            0 <= j < msgs.len() && #[trigger] msgs[j] is Some && msgs[j]->Some_0.date >= date
                && msgs[j]->Some_0.id == next_from_message_id(msgs, date, from_message_id),
{
    law_history_moves_back(msgs, date, from_message_id);
    let next = next_from_message_id(msgs, date, from_message_id);
    assert forall|j: int|
        0 <= j < msgs.len() && #[trigger] msgs[j] is Some && msgs[j]->Some_0.date >= date implies next
        <= msgs[j]->Some_0.id by {
        assert(is_recent(msgs[j], date));
    }
    if next != from_message_id {
        let j = choose|j: int|
            0 <= j < msgs.len() && #[trigger] is_recent(msgs[j], date) && msgs[j]->Some_0.id == next;
        assert(msgs[j] is Some && msgs[j]->Some_0.date >= date && msgs[j]->Some_0.id == next);
    }
}

} // verus!
