//! Commands and their execution: a command is looked up in the result cache,
//! and only one that is not held there is queued for a worker.

use crate::cache::{
    cache_capacity, cache_entries, cache_get, cache_insert, cache_new, distinct_keys,
    handles_below, has_key, insert_in, lemma_inserted, lemma_looked_up, lemma_swept, lookup_in,
    room_made, EntryView, KeyView,
};
use crate::config::{BotConfig, CommandConfig};
use crate::error::Error;
use crate::links::{same_text, ParseError, Url, UrlView};
use crate::omdb::{search_kind, Kind, Movie};
use crate::page::UrlInfo;
use crate::text::{before_first, ends_with, parse_u64, u64_of, until_char};
use crate::twitter::{Tweet, Tweeter};
use crate::wolfram::WolframPod;
use crate::youtube::YouTube;
use lru_time_cache::LruCache;
use vstd::prelude::*;
use vstd::string::StringExecFns;

verus! {

/// The number of jobs that may wait for a worker.
pub const QUEUE_DEPTH: usize = 64;

/// One unit of work that can be resolved: the key under which its result is
/// cached, and what tells the worker which source to ask.
#[derive(Clone, Debug, PartialEq, Eq, Hash, PartialOrd, Ord)]
pub enum BotCommand {
    /// Look at a web page.
    Url(Url),
    /// Search the movie database: the kind of title and the search text.
    Omdb(String, String),
    /// Look a video up by its identifier.
    YouTube(String),
    /// Put a question to the computational engine.
    Wolfram(String),
}

impl View for BotCommand {
    type V = KeyView;

    /// The value of a command: its kind and its texts. Two commands are the
    /// same command where their values are equal.
    open spec fn view(&self) -> KeyView {
        match self {
            BotCommand::Url(url) => (0u8, url@.text, Seq::<char>::empty()),
            BotCommand::Omdb(kind, search) => (1u8, kind@, search@),
            BotCommand::YouTube(id) => (2u8, id@, Seq::<char>::empty()),
            BotCommand::Wolfram(query) => (3u8, query@, Seq::<char>::empty()),
        }
    }
}

/// A command as text, for the record.
pub open spec fn command_text(command: BotCommand) -> Seq<char> {
    match command {
        BotCommand::Url(url) => "Url("@ + url@.text + ")"@,
        BotCommand::Omdb(kind, search) => "Omdb("@ + kind@ + ", "@ + search@ + ")"@,
        BotCommand::YouTube(id) => "YouTube("@ + id@ + ")"@,
        BotCommand::Wolfram(query) => "Wolfram("@ + query@ + ")"@,
    }
}

impl BotCommand {
    /// The command as text, for the record.
    pub fn to_string(&self) -> (r: String)
        ensures
            r@ == command_text(*self),
    {
        match self {
            BotCommand::Url(url) => {
                let mut r = String::from_str("Url(");
                r.append(url.as_str());
                r.append(")");
                r
            },
            BotCommand::Omdb(kind, search) => {
                let mut r = String::from_str("Omdb(");
                r.append(kind.as_str());
                r.append(", ");
                r.append(search.as_str());
                r.append(")");
                r
            },
            BotCommand::YouTube(id) => {
                let mut r = String::from_str("YouTube(");
                r.append(id.as_str());
                r.append(")");
                r
            },
            BotCommand::Wolfram(query) => {
                let mut r = String::from_str("Wolfram(");
                r.append(query.as_str());
                r.append(")");
                r
            },
        }
    }

    /// The key under which the result of the command is cached.
    pub fn cache_key(&self) -> (key: (u8, String, String))
        ensures
            key@ == self@,
    {
        match self {
            BotCommand::Url(url) => (0u8, String::from_str(url.as_str()), String::new()),
            BotCommand::Omdb(kind, search) => (1u8, kind.clone(), search.clone()),
            BotCommand::YouTube(id) => (2u8, id.clone(), String::new()),
            BotCommand::Wolfram(query) => (3u8, query.clone(), String::new()),
        }
    }
}

/// A command that waits for a worker.
pub struct Job {
    /// The handle that the result will be published under.
    pub handle: u64,
    /// What to resolve.
    pub command: BotCommand,
    /// The seconds after which the work is given up.
    pub timeout_secs: u8,
}

/// A waiting job as contracts see it.
pub struct JobView {
    pub handle: u64,
    pub command: KeyView,
    pub timeout_secs: u8,
}

impl View for Job {
    type V = JobView;

    open spec fn view(&self) -> JobView {
        JobView { handle: self.handle, command: self.command@, timeout_secs: self.timeout_secs }
    }
}

/// The jobs as contracts see them.
pub open spec fn jobs_view(jobs: Seq<Job>) -> Seq<JobView> {
    jobs.map_values(|job: Job| job@)
}

/// The state of command execution as contracts see it.
pub struct HandlerView {
    /// The cached entries, the least recently used first.
    pub entries: Seq<EntryView>,
    /// The number of entries that the cache holds at most.
    pub capacity: nat,
    /// The seconds that a cached entry lives.
    pub ttl_secs: u32,
    /// The handle that the next admitted command gets.
    pub next_handle: u64,
    /// The jobs that wait for a worker, the oldest first.
    pub queue: Seq<JobView>,
    /// The number of jobs that workers are busy with.
    pub running: nat,
    /// The number of jobs that may run at a time.
    pub width: u8,
    /// The seconds after which a job is given up.
    pub timeout_secs: u8,
}

/// Command execution: the result cache, the queue of admitted jobs and the
/// count of busy workers.
pub struct CommandHandler {
    cache: LruCache<(u8, String, String), u64>,
    capacity: usize,
    ttl_secs: u32,
    next_handle: u64,
    queue: Vec<Job>,
    running: usize,
    width: u8,
    timeout_secs: u8,
}

/// The answer to a command that was not refused.
#[derive(Clone, Copy, Debug, PartialEq, Eq, Structural)]
pub struct Lookup {
    /// The handle under which the result is published.
    pub handle: u64,
    /// Whether the handle is new: whether it stands for work that was
    /// queued for this command just now, and not for work queued earlier.
    pub is_new: bool,
}

/// The handle of an answer.
pub open spec fn handle_of(answer: Option<Lookup>) -> Option<u64> {
    match answer {
        Some(lookup) => Some(lookup.handle),
        None => None,
    }
}

/// The answer that goes with a handle given in the state `pre`: the handle
/// is new where it is the next handle of that state.
pub open spec fn answer_for(pre: HandlerView, handle: Option<u64>) -> Option<Lookup> {
    match handle {
        Some(handle) => Some(Lookup { handle, is_new: handle == pre.next_handle }),
        None => None,
    }
}

/// The capacity that a cache gets for a configured number of entries: that
/// number, as far as the machine can address it.
pub open spec fn capacity_for(entries: u32) -> nat {
    if entries * 128 <= usize::MAX {
        entries as nat
    } else {
        (usize::MAX / 128) as nat
    }
}

/// What a call of `spawn` does, where `swept` entries have expired by the
/// time of the lookup and `swept_again` more by the time of the insertion.
///
/// A command that the cache holds is answered with its handle, and nothing is
/// queued. Any other is refused where the queue is full or no handle is
/// left: then nothing is cached, no handle is used up, and the entries of
/// other commands stay as the sweep of the lookup left them. Else it gets
/// the next handle, which is cached, and a job is queued for it.
pub open spec fn spawn_post(
    pre: HandlerView,
    command: KeyView,
    swept: int,
    swept_again: int,
    post: HandlerView,
    handle: Option<u64>,
) -> bool {
    let live = pre.entries.skip(swept);
    &&& 0 <= swept <= pre.entries.len()
    &&& post.capacity == pre.capacity
    &&& post.ttl_secs == pre.ttl_secs
    &&& post.running == pre.running
    &&& post.width == pre.width
    &&& post.timeout_secs == pre.timeout_secs
    &&& if has_key(live, command) {
        &&& handle is Some
        &&& lookup_in(live, command, post.entries, handle)
        &&& post.queue == pre.queue
        &&& post.next_handle == pre.next_handle
    } else if pre.queue.len() >= QUEUE_DEPTH || pre.next_handle == u64::MAX {
        &&& handle is None
        &&& post.entries == live
        &&& post.queue == pre.queue
        &&& post.next_handle == pre.next_handle
    } else {
        &&& 0 <= swept_again <= live.len()
        &&& post.next_handle == pre.next_handle + 1
        &&& post.entries == if pre.capacity >= 1 {
            room_made(live.skip(swept_again), pre.capacity).push((command, pre.next_handle))
        } else {
            live
        }
        &&& handle == Some(pre.next_handle)
        &&& post.queue == pre.queue.push(
            JobView { handle: pre.next_handle, command: command, timeout_secs: pre.timeout_secs },
        )
    }
}

/// The state is one that the handler's own functions leave: no command is
/// cached twice, the cache is within its capacity, every handle in use is
/// older than the next one, and the queue is within its depth.
pub open spec fn handler_wf(s: HandlerView) -> bool {
    &&& distinct_keys(s.entries)
    &&& handles_below(s.entries, s.next_handle)
    &&& s.entries.len() <= s.capacity
    &&& forall|i: int| 0 <= i < s.queue.len() ==> (#[trigger] s.queue[i]).handle < s.next_handle
    &&& s.queue.len() <= QUEUE_DEPTH
}

impl View for CommandHandler {
    type V = HandlerView;

    closed spec fn view(&self) -> HandlerView {
        HandlerView {
            entries: cache_entries(self.cache),
            capacity: cache_capacity(self.cache),
            ttl_secs: self.ttl_secs,
            next_handle: self.next_handle,
            queue: jobs_view(self.queue@),
            running: self.running as nat,
            width: self.width,
            timeout_secs: self.timeout_secs,
        }
    }
}

/// The capacity, as far as the machine can address it.
fn addressable(entries: u32) -> (capacity: usize)
    ensures
        capacity == capacity_for(entries),
        capacity * 128 <= usize::MAX,
{
    let limit: usize = usize::MAX / 128;
    if entries as u64 <= limit as u64 {
        entries as usize
    } else {
        limit
    }
}

impl CommandHandler {
    /// The state is well formed (`handler_wf`), and the handler knows the
    /// capacity of its cache.
    pub closed spec fn wf(&self) -> bool {
        &&& handler_wf(self@)
        &&& self.capacity == cache_capacity(self.cache)
        &&& self.capacity * 128 <= usize::MAX
    }

    /// A well-formed handler has a well-formed state.
    pub proof fn lemma_wf(&self)
        requires
            self.wf(),
        ensures
            handler_wf(self@),
    {
    }

    /// A handler with an empty cache and an empty queue, and no worker busy.
    pub fn new(conf: &CommandConfig) -> (handler: CommandHandler)
        ensures
            handler.wf(),
            handler@.entries.len() == 0,
            handler@.capacity == capacity_for(conf.cache_entries),
            handler@.ttl_secs == conf.cache_time_secs,
            handler@.next_handle == 0,
            handler@.queue.len() == 0,
            handler@.running == 0,
            handler@.width == conf.max_concurrency,
            handler@.timeout_secs == conf.max_runtime_secs,
    {
        let capacity: usize = addressable(conf.cache_entries);
        let handler = CommandHandler {
            cache: cache_new(conf.cache_time_secs, capacity),
            capacity,
            ttl_secs: conf.cache_time_secs,
            next_handle: 0,
            queue: Vec::new(),
            running: 0,
            width: conf.max_concurrency,
            timeout_secs: conf.max_runtime_secs,
        };
        assert(jobs_view(handler.queue@) =~= Seq::<JobView>::empty());
        handler
    }

    /// The handle that the next admitted command gets: every handle below
    /// it has been given out, and none from it on.
    pub fn next_handle(&self) -> (r: u64)
        ensures
            r == self@.next_handle,
    {
        self.next_handle
    }

    /// Answers a command from the cache, or admits it: see `spawn_post`.
    /// `None` says that the command was refused. The answer says whether
    /// its handle is new: whether it stands for work that was queued by
    /// this call.
    pub fn submit(&mut self, command: BotCommand) -> (answer: Option<Lookup>)
        requires
            old(self).wf(),
        ensures
            final(self).wf(),
            answer == answer_for(old(self)@, handle_of(answer)),
            exists|swept: int, swept_again: int|
                spawn_post(
                    old(self)@,
                    command@,
                    swept,
                    swept_again,
                    final(self)@,
                    handle_of(answer),
                ),
    {
        let key = command.cache_key();
        let found = cache_get(&mut self.cache, &key);
        let ghost swept: int = choose|n: int|
            0 <= n <= cache_entries(old(self).cache).len() && lookup_in(
                #[trigger] cache_entries(old(self).cache).skip(n),
                key@,
                cache_entries(self.cache),
                found,
            );
        let ghost live = old(self)@.entries.skip(swept);
        proof {
            lemma_swept(old(self)@.entries, swept, self.next_handle);
            lemma_looked_up(live, key@, cache_entries(self.cache), found, self.next_handle);
        }
        match found {
            Some(cached) => {
                let answer = Some(Lookup { handle: cached, is_new: false });
                assert(handle_of(answer) == found);
                assert(spawn_post(old(self)@, command@, swept, 0, self@, handle_of(answer)));
                return answer;
            },
            None => {},
        }
        if self.queue.len() >= QUEUE_DEPTH || self.next_handle == u64::MAX {
            let answer: Option<Lookup> = None;
            assert(spawn_post(old(self)@, command@, swept, 0, self@, handle_of(answer)));
            return answer;
        }
        let handle: u64 = self.next_handle;
        self.next_handle = handle + 1;
        let ghost mut swept_again: int = 0;
        if self.capacity >= 1 {
            let ghost before = cache_entries(self.cache);
            let replaced = cache_insert(&mut self.cache, key, handle);
            proof {
                swept_again = choose|n: int|
                    0 <= n <= before.len() && insert_in(
                        #[trigger] before.skip(n),
                        cache_capacity(old(self).cache),
                        command@,
                        handle,
                        cache_entries(self.cache),
                        replaced,
                    );
                lemma_swept(before, swept_again, self.next_handle);
                lemma_inserted(
                    before.skip(swept_again),
                    cache_capacity(old(self).cache),
                    command@,
                    handle,
                    cache_entries(self.cache),
                    replaced,
                    self.next_handle,
                );
            }
        }
        let ghost waiting = self.queue@;
        let ghost asked = command@;
        let job = Job { handle, command, timeout_secs: self.timeout_secs };
        self.queue.push(job);
        let answer = Some(Lookup { handle, is_new: true });
        proof {
            assert(jobs_view(self.queue@) =~= jobs_view(waiting).push(job@));
            assert(spawn_post(old(self)@, asked, swept, swept_again, self@, handle_of(answer)));
        }
        answer
    }

    /// Answers a command from the cache, or admits it: see `spawn_post`.
    /// `None` says that the command was refused.
    pub fn spawn(&mut self, command: BotCommand) -> (handle: Option<u64>)
        requires
            old(self).wf(),
        ensures
            final(self).wf(),
            exists|swept: int, swept_again: int|
                spawn_post(old(self)@, command@, swept, swept_again, final(self)@, handle),
    {
        let ghost asked = command@;
        let answer = self.submit(command);
        let handle = match answer {
            Some(lookup) => Some(lookup.handle),
            None => None,
        };
        proof {
            let (swept, swept_again) = choose|swept: int, swept_again: int|
                spawn_post(old(self)@, asked, swept, swept_again, self@, handle_of(answer));
            assert(spawn_post(old(self)@, asked, swept, swept_again, self@, handle));
        }
        handle
    }
}


/// What a call of `reconfigure` does: the cache is replaced by an empty one
/// with the new bounds, and the new width and timeout hold from now on. The
/// handles given out so far, the waiting jobs and the busy workers stay.
pub open spec fn reconfigure_post(
    pre: HandlerView,
    ttl_secs: u32,
    entries: u32,
    width: u8,
    timeout_secs: u8,
    post: HandlerView,
) -> bool {
    &&& post.entries == Seq::<EntryView>::empty()
    &&& post.capacity == capacity_for(entries)
    &&& post.ttl_secs == ttl_secs
    &&& post.width == width
    &&& post.timeout_secs == timeout_secs
    &&& post.next_handle == pre.next_handle
    &&& post.queue == pre.queue
    &&& post.running == pre.running
}

impl CommandHandler {
    /// Takes a changed configuration over: see `reconfigure_post`.
    pub fn reconfigure(&mut self, conf: &CommandConfig)
        requires
            old(self).wf(),
        ensures
            final(self).wf(),
            reconfigure_post(
                old(self)@,
                conf.cache_time_secs,
                conf.cache_entries,
                conf.max_concurrency,
                conf.max_runtime_secs,
                final(self)@,
            ),
    {
        let capacity: usize = addressable(conf.cache_entries);
        self.cache = cache_new(conf.cache_time_secs, capacity);
        self.capacity = capacity;
        self.ttl_secs = conf.cache_time_secs;
        self.width = conf.max_concurrency;
        self.timeout_secs = conf.max_runtime_secs;
    }

    /// Hands the oldest waiting job to a worker, if one is free: the job
    /// leaves the queue and counts as running. `None` where every worker is
    /// busy or nothing waits.
    pub fn next_job(&mut self) -> (job: Option<Job>)
        requires
            old(self).wf(),
        ensures
            final(self).wf(),
            final(self)@.entries == old(self)@.entries,
            final(self)@.capacity == old(self)@.capacity,
            final(self)@.ttl_secs == old(self)@.ttl_secs,
            final(self)@.next_handle == old(self)@.next_handle,
            final(self)@.width == old(self)@.width,
            final(self)@.timeout_secs == old(self)@.timeout_secs,
            old(self)@.running < old(self)@.width && old(self)@.queue.len() > 0 ==> {
                &&& job is Some
                &&& job->0@ == old(self)@.queue[0]
                &&& final(self)@.queue == old(self)@.queue.skip(1)
                &&& final(self)@.running == old(self)@.running + 1
            },
            !(old(self)@.running < old(self)@.width && old(self)@.queue.len() > 0) ==> {
                &&& job is None
                &&& final(self)@.queue == old(self)@.queue
                &&& final(self)@.running == old(self)@.running
            },
    {
        if self.running < self.width as usize && self.queue.len() > 0 {
            let ghost waiting = self.queue@;
            let job = self.queue.remove(0);
            self.running = self.running + 1;
            proof {
                assert(jobs_view(self.queue@) =~= jobs_view(waiting).skip(1));
            }
            Some(job)
        } else {
            None
        }
    }

    /// Records that a worker has finished its job, whatever the outcome.
    pub fn job_done(&mut self)
        requires
            old(self).wf(),
        ensures
            final(self).wf(),
            final(self)@.entries == old(self)@.entries,
            final(self)@.capacity == old(self)@.capacity,
            final(self)@.ttl_secs == old(self)@.ttl_secs,
            final(self)@.next_handle == old(self)@.next_handle,
            final(self)@.width == old(self)@.width,
            final(self)@.timeout_secs == old(self)@.timeout_secs,
            final(self)@.queue == old(self)@.queue,
            final(self)@.running == if old(self)@.running > 0 {
                old(self)@.running - 1
            } else {
                0
            },
    {
        if self.running > 0 {
            self.running = self.running - 1;
        }
    }
}

/// The answers to the commands that were not refused, in their order.
pub open spec fn granted(answers: Seq<Option<Lookup>>) -> Seq<Lookup>
    decreases answers.len(),
{
    if answers.len() == 0 {
        Seq::empty()
    } else {
        match answers.last() {
            Some(lookup) => granted(answers.drop_last()).push(lookup),
            None => granted(answers.drop_last()),
        }
    }
}

/// The handler went from `pre` to `post` by taking the commands one after
/// the other, and answered them with `answers`.
pub open spec fn spawn_chain(
    pre: HandlerView,
    commands: Seq<KeyView>,
    post: HandlerView,
    answers: Seq<Option<Lookup>>,
) -> bool
    decreases commands.len(),
{
    if commands.len() == 0 {
        post == pre && answers.len() == 0
    } else {
        &&& answers.len() == commands.len()
        &&& exists|mid: HandlerView, swept: int, swept_again: int|
            {
                &&& spawn_chain(pre, commands.drop_last(), mid, answers.drop_last())
                &&& answers.last() == answer_for(mid, handle_of(answers.last()))
                &&& #[trigger] spawn_post(
                    mid,
                    commands.last(),
                    swept,
                    swept_again,
                    post,
                    handle_of(answers.last()),
                )
            }
    }
}

/// The keys of the entries, in their order.
pub open spec fn keys_of(entries: Seq<EntryView>) -> Seq<KeyView> {
    Seq::new(entries.len(), |i: int| entries[i].0)
}

/// The commands differ from each other, and none of them is cached.
pub open spec fn fresh_commands(commands: Seq<KeyView>, entries: Seq<EntryView>) -> bool {
    &&& forall|i: int, j: int|
        0 <= i < j < commands.len() ==> #[trigger] commands[i] != #[trigger] commands[j]
    &&& forall|i: int| 0 <= i < commands.len() ==> !has_key(entries, #[trigger] commands[i])
}

/// A call of `spawn` leaves a well-formed state well formed.
pub proof fn lemma_spawn_keeps_wf(
    pre: HandlerView,
    command: KeyView,
    swept: int,
    swept_again: int,
    post: HandlerView,
    handle: Option<u64>,
)
    requires
        handler_wf(pre),
        spawn_post(pre, command, swept, swept_again, post, handle),
    ensures
        handler_wf(post),
        has_key(pre.entries.skip(swept), command) ==> handle is Some && post.entries.len() > 0
            && post.entries.last() == (command, handle->0),
        post.next_handle > pre.next_handle && pre.capacity >= 1 ==> post.entries.len() > 0
            && post.entries.last() == (command, pre.next_handle),
        pre.queue.is_prefix_of(post.queue),
{
    let live = pre.entries.skip(swept);
    lemma_swept(pre.entries, swept, pre.next_handle);
    if has_key(live, command) {
        lemma_looked_up(live, command, post.entries, handle, pre.next_handle);
    } else if pre.queue.len() >= QUEUE_DEPTH || pre.next_handle == u64::MAX {
    } else {
        if pre.capacity >= 1 {
            let again = live.skip(swept_again);
            lemma_swept(live, swept_again, post.next_handle);
            lemma_inserted(
                again,
                pre.capacity,
                command,
                pre.next_handle,
                post.entries,
                None,
                post.next_handle,
            );
        }
    }
}

/// Backpressure: a command that is refused leaves no trace. No job is
/// queued and no handle is used up; the command is not cached; and the
/// entries of other commands are those that the sweep of the lookup left,
/// each as it was.
pub proof fn lemma_refusal_changes_nothing(
    pre: HandlerView,
    command: KeyView,
    swept: int,
    swept_again: int,
    post: HandlerView,
)
    requires
        handler_wf(pre),
        spawn_post(pre, command, swept, swept_again, post, None),
    ensures
        post.queue == pre.queue,
        post.next_handle == pre.next_handle,
        post.running == pre.running,
        post.entries == pre.entries.skip(swept),
        !has_key(post.entries, command),
        pre.queue.len() >= QUEUE_DEPTH || pre.next_handle == u64::MAX,
{
}

/// Single flight: a command that was answered with a handle is answered with
/// the same handle when it is submitted again, and no second job is queued
/// for it, as long as its entry has not expired in between. Its entry is the
/// most recently used one, so it has not expired while any entry is left.
pub proof fn lemma_single_flight(
    s0: HandlerView,
    c1: KeyView,
    c2: KeyView,
    swept1: int,
    again1: int,
    s1: HandlerView,
    h1: Option<u64>,
    swept2: int,
    again2: int,
    s2: HandlerView,
    h2: Option<u64>,
)
    requires
        handler_wf(s0),
        s0.capacity >= 1,
        c1 == c2,
        spawn_post(s0, c1, swept1, again1, s1, h1),
        h1 is Some,
        spawn_post(s1, c2, swept2, again2, s2, h2),
        swept2 < s1.entries.len(),
    ensures
        h2 == h1,
        s2.queue == s1.queue,
        s2.next_handle == s1.next_handle,
{
    lemma_spawn_keeps_wf(s0, c1, swept1, again1, s1, h1);
    assert(s1.entries.last() == (c1, h1->0));
    let live = s1.entries.skip(swept2);
    lemma_swept(s1.entries, swept2, s1.next_handle);
    assert(live[live.len() - 1] == s1.entries.last());
    assert(live[live.len() - 1].0 == c2);
    assert(has_key(live, c2));
    lemma_looked_up(live, c2, s2.entries, h2, s1.next_handle);
}

/// Expiry: a command whose entry has expired is admitted afresh when it is
/// submitted again. It gets a handle that was never given out before, and a
/// new job is queued for it.
pub proof fn lemma_expired_is_fresh(
    s1: HandlerView,
    command: KeyView,
    swept: int,
    again: int,
    s2: HandlerView,
    handle: Option<u64>,
)
    requires
        handler_wf(s1),
        spawn_post(s1, command, swept, again, s2, handle),
        !has_key(s1.entries.skip(swept), command),
        s1.next_handle < u64::MAX,
        s1.queue.len() < QUEUE_DEPTH,
    ensures
        handle == Some(s1.next_handle),
        handles_below(s1.entries, handle->0),
        forall|i: int| 0 <= i < s1.queue.len() ==> (#[trigger] s1.queue[i]).handle < handle->0,
        s2.queue.len() == s1.queue.len() + 1,
        s2.queue.last().handle == handle->0,
        s2.queue.last().command == command,
{
}

/// Capacity: when a command is admitted into a full cache, the least recently
/// used entry is gone afterwards.
pub proof fn lemma_capacity_eviction(
    pre: HandlerView,
    command: KeyView,
    swept: int,
    swept_again: int,
    post: HandlerView,
    handle: Option<u64>,
)
    requires
        handler_wf(pre),
        pre.capacity >= 1,
        pre.entries.len() == pre.capacity,
        !has_key(pre.entries, command),
        pre.next_handle < u64::MAX,
        pre.queue.len() < QUEUE_DEPTH,
        spawn_post(pre, command, swept, swept_again, post, handle),
    ensures
        !has_key(post.entries, pre.entries[0].0),
        has_key(post.entries, command),
        post.entries.len() <= pre.capacity,
{
    let live = pre.entries.skip(swept);
    lemma_swept(pre.entries, swept, pre.next_handle);
    let again = live.skip(swept_again);
    lemma_swept(live, swept_again, pre.next_handle);
    let kept = room_made(again, pre.capacity);
    let dropped = pre.entries.len() - kept.len();
    assert(dropped >= 1);
    assert(post.entries == kept.push((command, pre.next_handle)));
    assert(post.entries.last().0 == command);
    if has_key(post.entries, pre.entries[0].0) {
        let i = choose|i: int|
            0 <= i < post.entries.len() && (#[trigger] post.entries[i]).0 == pre.entries[0].0;
        if i < kept.len() {
            assert(post.entries[i] == kept[i]);
            assert(kept[i] == pre.entries[i + dropped]);
        } else {
            assert(pre.entries[0].0 == command);
        }
    }
}

/// Workers took waiting jobs: the oldest jobs have left the queue, and
/// nothing else of the cache or the handles changed.
pub open spec fn worked(pre: HandlerView, post: HandlerView) -> bool {
    &&& post.entries == pre.entries
    &&& post.capacity == pre.capacity
    &&& post.ttl_secs == pre.ttl_secs
    &&& post.next_handle == pre.next_handle
    &&& post.width == pre.width
    &&& post.timeout_secs == pre.timeout_secs
    &&& exists|taken: int| 0 <= taken <= pre.queue.len() && post.queue == pre.queue.skip(taken)
}

/// The handler went from `pre` to `post` by taking the commands one after
/// the other, each at a time when the queue had room. Between two commands
/// workers may have taken jobs.
pub open spec fn queued_chain(pre: HandlerView, commands: Seq<KeyView>, post: HandlerView) -> bool
    decreases commands.len(),
{
    if commands.len() == 0 {
        post == pre
    } else {
        exists|mid: HandlerView, ready: HandlerView, swept: int, swept_again: int|
            {
                &&& queued_chain(pre, commands.drop_last(), mid)
                &&& #[trigger] worked(mid, ready)
                &&& ready.queue.len() < QUEUE_DEPTH
                &&& #[trigger] spawn_post(
                    ready,
                    commands.last(),
                    swept,
                    swept_again,
                    post,
                    Some(ready.next_handle),
                )
            }
    }
}

/// Workers that take jobs leave a well-formed state well formed.
proof fn lemma_worked(pre: HandlerView, post: HandlerView)
    requires
        handler_wf(pre),
        worked(pre, post),
    ensures
        handler_wf(post),
{
    let taken = choose|taken: int| 0 <= taken <= pre.queue.len() && post.queue == pre.queue.skip(
        taken,
    );
    assert forall|i: int| 0 <= i < post.queue.len() implies (#[trigger] post.queue[i]).handle
        < post.next_handle by {
        assert(post.queue[i] == pre.queue[i + taken]);
    }
}

/// `keys` is what is left of `all` without its first `j`.
pub open spec fn is_tail(keys: Seq<KeyView>, all: Seq<KeyView>, j: int) -> bool {
    0 <= j <= all.len() && keys == all.skip(j)
}

/// After commands that were not cached, and differ from each other, the
/// cache holds the last of what it held before and of these commands, in
/// their order.
proof fn lemma_chain_keys(pre: HandlerView, commands: Seq<KeyView>, post: HandlerView)
    requires
        handler_wf(pre),
        pre.capacity >= 1,
        fresh_commands(commands, pre.entries),
        pre.next_handle + commands.len() <= u64::MAX,
        queued_chain(pre, commands, post),
    ensures
        handler_wf(post),
        post.capacity == pre.capacity,
        post.next_handle == pre.next_handle + commands.len(),
        exists|j: int| is_tail(keys_of(post.entries), keys_of(pre.entries) + commands, j),
    decreases commands.len(),
{
    let old_keys = keys_of(pre.entries);
    if commands.len() == 0 {
        assert(keys_of(post.entries) =~= (old_keys + commands).skip(0));
        assert(is_tail(keys_of(post.entries), old_keys + commands, 0));
    } else {
        let earlier = commands.drop_last();
        let command = commands.last();
        let (before, ready, swept, swept_again) = choose|
            mid: HandlerView,
            ready: HandlerView,
            swept: int,
            swept_again: int,
        |
            {
                &&& queued_chain(pre, earlier, mid)
                &&& #[trigger] worked(mid, ready)
                &&& ready.queue.len() < QUEUE_DEPTH
                &&& #[trigger] spawn_post(
                    ready,
                    command,
                    swept,
                    swept_again,
                    post,
                    Some(ready.next_handle),
                )
            };
        let mid = ready;
        assert forall|i: int, j: int| 0 <= i < j < earlier.len() implies #[trigger] earlier[i]
            != #[trigger] earlier[j] by {
            assert(earlier[i] == commands[i] && earlier[j] == commands[j]);
        }
        assert forall|i: int| 0 <= i < earlier.len() implies !has_key(
            pre.entries,
            #[trigger] earlier[i],
        ) by {
            assert(earlier[i] == commands[i]);
        }
        lemma_chain_keys(pre, earlier, before);
        lemma_worked(before, mid);
        let j0 = choose|j: int| is_tail(keys_of(mid.entries), old_keys + earlier, j);
        let held = keys_of(mid.entries);
        // The command is not cached: it is none of the old keys and none of
        // the earlier commands.
        if has_key(mid.entries, command) {
            let i = choose|i: int|
                0 <= i < mid.entries.len() && (#[trigger] mid.entries[i]).0 == command;
            assert(held[i] == command);
            let at = j0 + i;
            let before = old_keys + earlier;
            assert(held.len() == mid.entries.len());
            assert(held.len() == before.len() - j0);
            assert(before.skip(j0)[i] == before[at]);
            if at < old_keys.len() {
                assert(before[at] == old_keys[at]);
                assert(pre.entries[at].0 == command);
                assert(has_key(pre.entries, commands[commands.len() - 1]));
            } else {
                assert(before[at] == earlier[at - old_keys.len()]);
                assert(earlier[at - old_keys.len()] == commands[at - old_keys.len()]);
            }
        }
        let live = mid.entries.skip(swept);
        lemma_swept(mid.entries, swept, mid.next_handle);
        lemma_spawn_keeps_wf(mid, command, swept, swept_again, post, Some(mid.next_handle));
        let again = live.skip(swept_again);
        let kept = room_made(again, mid.capacity);
        let dropped = mid.entries.len() - kept.len();
        assert(kept =~= mid.entries.skip(dropped));
        assert(post.entries == kept.push((command, mid.next_handle)));
        assert(keys_of(post.entries) =~= (old_keys + commands).skip(j0 + dropped)) by {
            let all = old_keys + commands;
            let before = old_keys + earlier;
            assert(held.len() == mid.entries.len());
            assert(held.len() == before.len() - j0);
            assert(keys_of(post.entries).len() == kept.len() + 1);
            assert(all.len() == before.len() + 1);
            assert(0 <= j0 + dropped <= all.len());
            assert(keys_of(post.entries).len() == all.skip(j0 + dropped).len());
            assert forall|i: int| 0 <= i < keys_of(post.entries).len() implies keys_of(
                post.entries,
            )[i] == all.skip(j0 + dropped)[i] by {
                assert(held.len() == mid.entries.len());
                assert(held.len() == before.len() - j0);
                assert(before.len() == old_keys.len() + earlier.len());
                if i < kept.len() {
                    let at = j0 + i + dropped;
                    assert(post.entries[i] == kept[i]);
                    assert(kept[i] == mid.entries[i + dropped]);
                    assert(before.skip(j0)[i + dropped] == before[at]);
                    if at < old_keys.len() {
                        assert(before[at] == old_keys[at]);
                        assert(all[at] == old_keys[at]);
                    } else {
                        assert(before[at] == earlier[at - old_keys.len()]);
                        assert(all[at] == commands[at - old_keys.len()]);
                    }
                } else {
                    assert(i == kept.len());
                    assert(j0 + dropped + i == all.len() - 1);
                    assert(all[j0 + dropped + i] == commands[commands.len() - 1]);
                }
            }
        }
        assert(held.len() == mid.entries.len());
        assert(held.len() == (old_keys + earlier).len() - j0);
        assert((old_keys + commands).len() == (old_keys + earlier).len() + 1);
        assert(is_tail(keys_of(post.entries), old_keys + commands, j0 + dropped));
    }
}

/// Capacity: after as many commands as the cache holds and one more, none
/// of them cached before, each different from the others and each admitted,
/// the first of them is cached no more.
pub proof fn lemma_capacity_overflow(pre: HandlerView, commands: Seq<KeyView>, post: HandlerView)
    requires
        handler_wf(pre),
        pre.capacity >= 1,
        commands.len() == pre.capacity + 1,
        fresh_commands(commands, pre.entries),
        pre.next_handle + commands.len() <= u64::MAX,
        queued_chain(pre, commands, post),
    ensures
        !has_key(post.entries, commands[0]),
        post.entries.len() <= pre.capacity,
{
    lemma_chain_keys(pre, commands, post);
    let old_keys = keys_of(pre.entries);
    let j = choose|j: int| is_tail(keys_of(post.entries), old_keys + commands, j);
    assert(keys_of(post.entries).len() == post.entries.len());
    if has_key(post.entries, commands[0]) {
        let i = choose|i: int|
            0 <= i < post.entries.len() && (#[trigger] post.entries[i]).0 == commands[0];
        assert(keys_of(post.entries)[i] == commands[0]);
        assert((old_keys + commands)[j + i] == commands[j + i - old_keys.len()]);
    }
}

/// Reconfiguration: after the cache bounds change, any command, cached before
/// or not, is admitted afresh under a handle that was never given out, and
/// the jobs that waited before still wait, ahead of the new one.
pub proof fn lemma_reconfigured_admits_afresh(
    s0: HandlerView,
    ttl_secs: u32,
    entries: u32,
    width: u8,
    timeout_secs: u8,
    s1: HandlerView,
    command: KeyView,
    swept: int,
    swept_again: int,
    s2: HandlerView,
    handle: Option<u64>,
)
    requires
        handler_wf(s0),
        reconfigure_post(s0, ttl_secs, entries, width, timeout_secs, s1),
        spawn_post(s1, command, swept, swept_again, s2, handle),
        s0.next_handle < u64::MAX,
        s0.queue.len() < QUEUE_DEPTH,
    ensures
        handler_wf(s1),
        handle == Some(s0.next_handle),
        handles_below(s0.entries, handle->0),
        s2.queue == s0.queue.push(
            JobView { handle: s0.next_handle, command: command, timeout_secs: timeout_secs },
        ),
        s2.running == s0.running,
{
    assert(!has_key(s1.entries.skip(swept), command));
}

/// What a command resolves to.
#[derive(Debug)]
pub enum Info {
    Url(UrlInfo),
    Tweet(Tweet),
    Tweeter(Tweeter),
    Movie(Movie),
    YouTube(YouTube),
    Wolfram(Vec<WolframPod>),
}

/// How the run of a job ended.
pub enum Outcome {
    /// The source answered in time, with a result or an error.
    Finished(Result<Info, Error>),
    /// The time allowed ran out first.
    TimedOut,
}

/// What a job resolves to: what the source answered, unchanged, or the error
/// `TimedOut` where the time ran out first.
pub fn settle(outcome: Outcome) -> (r: Result<Info, Error>)
    ensures
        outcome matches Outcome::Finished(result) ==> r == result,
        outcome is TimedOut ==> r == Err::<Info, Error>(Error::TimedOut),
{
    match outcome {
        Outcome::Finished(result) => result,
        Outcome::TimedOut => Err(Error::TimedOut),
    }
}

/// The place where the result of one command is published, once.
pub struct Response {
    result: Option<Result<Info, Error>>,
}

impl Response {
    /// What was published, if anything was.
    pub closed spec fn published(&self) -> Option<Result<Info, Error>> {
        self.result
    }

    /// A place where nothing is published yet.
    pub fn new() -> (r: Response)
        ensures
            r.published() is None,
    {
        Response { result: None }
    }

    /// Publishes a result, unless one was published before: see
    /// `resolve_post`. Says whether this result was published.
    pub fn resolve(&mut self, result: Result<Info, Error>) -> (first: bool)
        ensures
            resolve_post(*old(self), result, *final(self), first),
    {
        if self.result.is_none() {
            self.result = Some(result);
            true
        } else {
            false
        }
    }

    /// What was published, if anything was.
    pub fn get(&self) -> (r: Option<&Result<Info, Error>>)
        ensures
            r is Some == self.published() is Some,
            r is Some ==> *r->0 == self.published()->0,
    {
        self.result.as_ref()
    }
}

/// What a call of `resolve` does: the first result is published, and any
/// later one changes nothing.
pub open spec fn resolve_post(
    pre: Response,
    result: Result<Info, Error>,
    post: Response,
    first: bool,
) -> bool {
    &&& first == (pre.published() is None)
    &&& first ==> post.published() == Some(result)
    &&& !first ==> post.published() == pre.published()
}

/// A result that is published stays: whatever is resolved later, and in
/// particular what a source answers after its time ran out, changes nothing.
pub proof fn lemma_resolved_once(
    r0: Response,
    early: Result<Info, Error>,
    r1: Response,
    first: bool,
    late: Result<Info, Error>,
    r2: Response,
    second: bool,
)
    requires
        r0.published() is None,
        resolve_post(r0, early, r1, first),
        resolve_post(r1, late, r2, second),
    ensures
        first,
        !second,
        r2.published() == Some(early),
{
}

/// A job whose time ran out resolves to the error `TimedOut`, whatever its
/// source answers later.
pub proof fn lemma_timeout_stands(
    r0: Response,
    r1: Response,
    first: bool,
    late: Result<Info, Error>,
    r2: Response,
    second: bool,
)
    requires
        r0.published() is None,
        resolve_post(r0, Err(Error::TimedOut), r1, first),
        resolve_post(r1, late, r2, second),
    ensures
        r2.published() == Some(Err::<Info, Error>(Error::TimedOut)),
{
}

/// What a worker has to ask, and of which source.
#[derive(Debug)]
pub enum Fetch {
    /// The user of the social network with this screen name.
    Tweeter(String),
    /// The post with this number.
    Tweet(u64),
    /// The title with this identifier in the movie database.
    ImdbId(String),
    /// The summary of an article of the encyclopedia, at this address.
    Wikipedia(Url),
    /// The page at this address.
    Page(Url),
    /// A search of the movie database for a title of a kind.
    Omdb(Kind, String),
    /// The video with this identifier.
    YouTube(String),
    /// A question to the computational engine.
    Wolfram(String),
}

/// A request as contracts see it.
pub enum FetchView {
    Tweeter(Seq<char>),
    Tweet(u64),
    ImdbId(Seq<char>),
    Wikipedia(UrlView),
    Page(UrlView),
    Omdb(Kind, Seq<char>),
    YouTube(Seq<char>),
    Wolfram(Seq<char>),
}

impl View for Fetch {
    type V = FetchView;

    open spec fn view(&self) -> FetchView {
        match self {
            Fetch::Tweeter(name) => FetchView::Tweeter(name@),
            Fetch::Tweet(id) => FetchView::Tweet(*id),
            Fetch::ImdbId(id) => FetchView::ImdbId(id@),
            Fetch::Wikipedia(url) => FetchView::Wikipedia(url@),
            Fetch::Page(url) => FetchView::Page(url@),
            Fetch::Omdb(kind, search) => FetchView::Omdb(*kind, search@),
            Fetch::YouTube(id) => FetchView::YouTube(id@),
            Fetch::Wolfram(query) => FetchView::Wolfram(query@),
        }
    }
}

/// Where an address leads.
pub enum Route {
    /// To a user of the social network.
    Tweeter(Seq<char>),
    /// To a post of the social network.
    Tweet(u64),
    /// To a title of the movie database.
    ImdbId(Seq<char>),
    /// To an article of the encyclopedia: its language and its name.
    Wikipedia(Seq<char>, Seq<char>),
    /// To a page like any other.
    Page,
}

/// The user that an address of the social network names: the only segment
/// of its path, which a slash may follow.
pub open spec fn twitter_user(url: UrlView) -> Option<Seq<char>> {
    match url.path {
        Some(path) => if url.host == Some("twitter.com"@) && (path.len() == 1 || (path.len() == 2
            && path[1].len() == 0)) {
            Some(path[0])
        } else {
            None
        },
        None => None,
    }
}

/// The post that an address of the social network names: the number that
/// follows the user and the segment `status`.
pub open spec fn twitter_status(url: UrlView) -> Option<u64> {
    match url.path {
        Some(path) => if url.host == Some("twitter.com"@) && path.len() == 3 && path[1]
            == "status"@ {
            u64_of(path[2])
        } else {
            None
        },
        None => None,
    }
}

/// The title that an address of the movie database names: the segment that
/// follows `title`.
pub open spec fn imdb_title(url: UrlView) -> Option<Seq<char>> {
    match url.path {
        Some(path) => if url.host == Some("www.imdb.com"@) && path.len() > 1 && path[0]
            == "title"@ {
            Some(path[1])
        } else {
            None
        },
        None => None,
    }
}

/// The article that an address of the encyclopedia names: the language,
/// which is the host up to its first dot, and the segment that follows
/// `wiki`.
pub open spec fn wikipedia_article(url: UrlView) -> Option<(Seq<char>, Seq<char>)> {
    match (url.host, url.path) {
        (Some(host), Some(path)) => if ".wikipedia.org"@.is_suffix_of(host) && path.len() > 1
            && path[0] == "wiki"@ {
            Some((before_first(host, '.'), path[1]))
        } else {
            None
        },
        _ => None,
    }
}

/// Where an address leads. The social network and the movie database are
/// asked only where access to them is configured; the first of the special
/// routes that fits is taken, and any other address is a page.
pub open spec fn route(url: UrlView, twitter: bool, omdb: bool) -> Route {
    if twitter && twitter_user(url) is Some {
        Route::Tweeter(twitter_user(url)->0)
    } else if twitter && twitter_status(url) is Some {
        Route::Tweet(twitter_status(url)->0)
    } else if omdb && imdb_title(url) is Some {
        Route::ImdbId(imdb_title(url)->0)
    } else if wikipedia_article(url) is Some {
        Route::Wikipedia((wikipedia_article(url)->0).0, (wikipedia_article(url)->0).1)
    } else {
        Route::Page
    }
}

/// The address of the summary of an article of the encyclopedia.
pub open spec fn summary_address(lang: Seq<char>, article: Seq<char>) -> Seq<char> {
    "https://"@ + lang + ".wikipedia.org/api/rest_v1/page/summary/"@ + article
}

/// A route to the social network, if the address has one.
fn twitter_route(url: &Url) -> (r: Option<Fetch>)
    ensures
        twitter_user(url@) is Some ==> r is Some && r->0@ == FetchView::Tweeter(
            twitter_user(url@)->0,
        ),
        twitter_user(url@) is None && twitter_status(url@) is Some ==> r is Some && r->0@
            == FetchView::Tweet(twitter_status(url@)->0),
        twitter_user(url@) is None && twitter_status(url@) is None ==> r is None,
{
    let host = match url.host_str() {
        Some(h) => h,
        None => {
            return None;
        },
    };
    if !same_text(host, "twitter.com") {
        return None;
    }
    let path = match url.path_segments() {
        Some(p) => p,
        None => {
            return None;
        },
    };
    assert(url@.path == Some(path.deep_view()));
    if path.len() == 1 || (path.len() == 2 && path[1].as_str().is_empty()) {
        Some(Fetch::Tweeter(path[0].clone()))
    } else if path.len() == 3 && same_text(path[1].as_str(), "status") {
        match parse_u64(path[2].as_str()) {
            Some(id) => Some(Fetch::Tweet(id)),
            None => None,
        }
    } else {
        None
    }
}

/// A route to the movie database, if the address has one.
fn imdb_route(url: &Url) -> (r: Option<Fetch>)
    ensures
        imdb_title(url@) is Some ==> r is Some && r->0@ == FetchView::ImdbId(imdb_title(url@)->0),
        imdb_title(url@) is None ==> r is None,
{
    let host = match url.host_str() {
        Some(h) => h,
        None => {
            return None;
        },
    };
    if !same_text(host, "www.imdb.com") {
        return None;
    }
    let path = match url.path_segments() {
        Some(p) => p,
        None => {
            return None;
        },
    };
    assert(url@.path == Some(path.deep_view()));
    if path.len() > 1 && same_text(path[0].as_str(), "title") {
        Some(Fetch::ImdbId(path[1].clone()))
    } else {
        None
    }
}

/// The address of the summary of the article that an address of the
/// encyclopedia names, if it names one.
fn wikipedia_route(url: &Url) -> (r: Option<String>)
    ensures
        wikipedia_article(url@) is Some ==> r is Some && r->0@ == summary_address(
            (wikipedia_article(url@)->0).0,
            (wikipedia_article(url@)->0).1,
        ),
        wikipedia_article(url@) is None ==> r is None,
{
    let host = match url.host_str() {
        Some(h) => h,
        None => {
            return None;
        },
    };
    if !ends_with(host, ".wikipedia.org") {
        return None;
    }
    let path = match url.path_segments() {
        Some(p) => p,
        None => {
            return None;
        },
    };
    assert(url@.path == Some(path.deep_view()));
    if path.len() > 1 && same_text(path[0].as_str(), "wiki") {
        let mut address = String::from_str("https://");
        address.append(until_char(host, '.').as_str());
        address.append(".wikipedia.org/api/rest_v1/page/summary/");
        address.append(path[1].as_str());
        Some(address)
    } else {
        None
    }
}

/// What is asked for a command, as contracts see it. A command whose source
/// has no key configured is the error `Unconfigured`; a search for a kind of
/// title that is not known is the error `UnknownType`; an address leads
/// where `route` says, and one of the encyclopedia whose summary address is
/// none is the error of that address.
pub open spec fn planned(command: BotCommand, config: BotConfig) -> Result<FetchView, Error> {
    match command {
        BotCommand::Url(url) => match route(
            url@,
            config.twitter.bearer_token is Some,
            config.omdb.api_key is Some,
        ) {
            Route::Tweeter(name) => Ok(FetchView::Tweeter(name)),
            Route::Tweet(id) => Ok(FetchView::Tweet(id)),
            Route::ImdbId(id) => Ok(FetchView::ImdbId(id)),
            Route::Wikipedia(lang, article) => match crate::links::url_parse(
                summary_address(lang, article),
            ) {
                Ok(summary) => Ok(FetchView::Wikipedia(summary)),
                Err(e) => Err(Error::Url(e)),
            },
            Route::Page => Ok(FetchView::Page(url@)),
        },
        BotCommand::Omdb(kind, search) => if config.omdb.api_key is None {
            Err(Error::Unconfigured)
        } else if kind@ == "movie"@ {
            Ok(FetchView::Omdb(Kind::Movie, search@))
        } else if kind@ == "series"@ {
            Ok(FetchView::Omdb(Kind::Series, search@))
        } else {
            Err(Error::UnknownType)
        },
        BotCommand::YouTube(id) => if config.youtube.api_key is None {
            Err(Error::Unconfigured)
        } else {
            Ok(FetchView::YouTube(id@))
        },
        BotCommand::Wolfram(query) => if config.wolfram.app_id is None {
            Err(Error::Unconfigured)
        } else {
            Ok(FetchView::Wolfram(query@))
        },
    }
}

/// Decides where an address leads.
pub fn handle_url(url: Url, config: &BotConfig) -> (r: Result<Fetch, Error>)
    ensures
        r is Ok ==> planned(BotCommand::Url(url), *config) == Ok::<FetchView, Error>(r->Ok_0@),
        r is Err ==> planned(BotCommand::Url(url), *config) == Err::<FetchView, Error>(r->Err_0),
{
    if config.twitter.bearer_token.is_some() {
        match twitter_route(&url) {
            Some(fetch) => {
                return Ok(fetch);
            },
            None => {},
        }
    }
    if config.omdb.api_key.is_some() {
        match imdb_route(&url) {
            Some(fetch) => {
                return Ok(fetch);
            },
            None => {},
        }
    }
    match wikipedia_route(&url) {
        Some(address) => {
            return match Url::parse(address.as_str()) {
                Ok(summary) => Ok(Fetch::Wikipedia(summary)),
                Err(e) => Err(Error::Url(e)),
            };
        },
        None => {},
    }
    Ok(Fetch::Page(url))
}

/// Decides what is asked for a command, and of which source.
pub fn plan(command: BotCommand, config: &BotConfig) -> (r: Result<Fetch, Error>)
    ensures
        r is Ok ==> planned(command, *config) == Ok::<FetchView, Error>(r->Ok_0@),
        r is Err ==> planned(command, *config) == Err::<FetchView, Error>(r->Err_0),
{
    match command {
        BotCommand::Url(url) => handle_url(url, config),
        BotCommand::Omdb(kind, search) => {
            if config.omdb.api_key.is_none() {
                return Err(Error::Unconfigured);
            }
            match search_kind(kind.as_str()) {
                Ok(kind) => Ok(Fetch::Omdb(kind, search)),
                Err(e) => Err(e),
            }
        },
        BotCommand::YouTube(id) => {
            if config.youtube.api_key.is_none() {
                Err(Error::Unconfigured)
            } else {
                Ok(Fetch::YouTube(id))
            }
        },
        BotCommand::Wolfram(query) => {
            if config.wolfram.app_id.is_none() {
                Err(Error::Unconfigured)
            } else {
                Ok(Fetch::Wolfram(query))
            }
        },
    }
}

} // verus!
