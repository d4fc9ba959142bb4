//! Checkpoints of an agent's state, for undo and recovery: snapshots of the
//! context and conversation, kept up to a limit that spares tagged ones.

use crate::context::{msg_view, msg_views, Context, Message, Role};
use crate::conversation::{conversation_view, Conversation};
use crate::error::Error;
use crate::text::{chars_of, contains_str, dec, dec_int, extend_str, owned, push_dec, push_dec_i64, str_eq, string_from_chars, string_views};
use vstd::prelude::*;

verus! {

/// What chrono's `DateTime::format("%Y-%m-%d %H:%M:%S")` gives for the UTC
/// instant `ms` milliseconds after the Unix epoch.
pub uninterp spec fn utc_text(ms: i64) -> Seq<char>;

/// `DateTime::from_timestamp_millis` and `format("%Y-%m-%d %H:%M:%S")` of
/// chrono: the instant as UTC date and time, by the name `utc_text`.
#[verifier::external_body]
fn format_utc(ms: i64) -> (r: String)
    requires
        crate::clock::in_clock_range(ms as int),
    ensures
        r@ == utc_text(ms),
{
    chrono::DateTime::from_timestamp_millis(ms).unwrap().format("%Y-%m-%d %H:%M:%S").to_string()
}

/// A snapshot of an agent's state.
#[derive(Debug)]
pub struct Checkpoint {
    /// Unique ID.
    pub id: String,
    /// Name.
    pub name: Option<String>,
    /// What was done.
    pub description: Option<String>,
    /// When it was made, in milliseconds since the Unix epoch.
    pub timestamp: i64,
    /// The conversation.
    pub conversation: Option<Conversation>,
    /// The context messages.
    pub context_messages: Vec<Message>,
    /// Tokens at the time.
    pub token_count: u32,
    /// Whether it was made automatically.
    pub auto_created: bool,
    /// Tags.
    pub tags: Vec<String>,
}

/// A duration of `ms` milliseconds in whole units of `unit` milliseconds,
/// rounded toward zero.
pub open spec fn whole(ms: int, unit: int) -> int {
    if ms >= 0 {
        ms / unit
    } else {
        -((-ms) / unit)
    }
}

/// How long ago a checkpoint of `then` was made at `now`: seconds under a
/// minute, minutes under an hour, hours under a day, else days.
pub open spec fn age_text(then: int, now: int) -> Seq<char> {
    let d = now - then;
    let secs = whole(d, 1000);
    if secs < 60 {
        dec_int(secs) + " seconds ago"@
    } else if whole(d, 60_000) < 60 {
        dec_int(whole(d, 60_000)) + " minutes ago"@
    } else if whole(d, 3_600_000) < 24 {
        dec_int(whole(d, 3_600_000)) + " hours ago"@
    } else {
        dec_int(whole(d, 86_400_000)) + " days ago"@
    }
}

/// The name a checkpoint is shown by: its name, or `Checkpoint` and its time.
pub open spec fn display_text(cp: Checkpoint) -> Seq<char> {
    match cp.name {
        Some(n) => n@,
        None => "Checkpoint "@ + utc_text(cp.timestamp),
    }
}

/// The summary line of the `k`-th most recent checkpoint.
pub open spec fn summary_line(k: nat, cp: Checkpoint, now: int) -> Seq<char> {
    dec(k) + ". "@ + display_text(cp) + " - "@ + age_text(cp.timestamp as int, now) + " ("@ + dec(
        cp.token_count as nat,
    ) + " tokens)"@ + (if cp.auto_created {
        " (auto)"@
    } else {
        Seq::empty()
    }) + "\n"@
}

/// The summary lines of the `n` most recent checkpoints, newest first.
pub open spec fn summary_lines(cps: Seq<Checkpoint>, now: int, n: nat) -> Seq<char>
    decreases n,
{
    if n == 0 {
        Seq::empty()
    } else {
        summary_lines(cps, now, (n - 1) as nat) + summary_line(n, cps[cps.len() - n], now)
    }
}

/// The summary of checkpoints at `now`: the count, the limit, the five most
/// recent, and how many more there are.
pub open spec fn summary_text(cps: Seq<Checkpoint>, max: nat, now: int) -> Seq<char> {
    "Checkpoints: "@ + dec(cps.len()) + "\nMax: "@ + dec(max) + "\n\n"@ + summary_lines(
        cps,
        now,
        if cps.len() <= 5 {
            cps.len()
        } else {
            5
        },
    ) + if cps.len() > 5 {
        "... and "@ + dec((cps.len() - 5) as nat) + " more\n"@
    } else {
        Seq::empty()
    }
}

/// Appends the summary line of the `k`-th most recent checkpoint.
fn push_summary_line(out: &mut Vec<char>, k: usize, cp: &Checkpoint, now_ms: i64)
    requires
        cp.name is None ==> crate::clock::in_clock_range(cp.timestamp as int),
    ensures
        final(out)@ == old(out)@ + summary_line(k as nat, *cp, now_ms as int),
{
    let ghost o = out@;
    push_dec(out, k as u64);
    extend_str(out, ". ");
    let name = cp.display_name();
    extend_str(out, name.as_str());
    extend_str(out, " - ");
    let ghost p1 = out@;
    assert(p1 =~= o + (dec(k as nat) + ". "@ + display_text(*cp) + " - "@));
    let age = cp.age_at(now_ms);
    extend_str(out, age.as_str());
    extend_str(out, " (");
    push_dec(out, cp.token_count as u64);
    extend_str(out, " tokens)");
    let ghost p2 = out@;
    assert(p2 =~= p1 + (age_text(cp.timestamp as int, now_ms as int) + " ("@ + dec(
        cp.token_count as nat,
    ) + " tokens)"@));
    if cp.auto_created {
        extend_str(out, " (auto)");
    }
    extend_str(out, "\n");
    assert(out@ =~= o + summary_line(k as nat, *cp, now_ms as int));
}

/// `ms` in whole units, rounded toward zero.
fn whole_units(ms: i128, unit: i128) -> (r: i128)
    requires
        unit > 0,
        -0x1_0000_0000_0000_0000 <= ms <= 0x1_0000_0000_0000_0000,
    ensures
        r == whole(ms as int, unit as int),
{
    if ms >= 0 {
        ms / unit
    } else {
        -((-ms) / unit)
    }
}

impl Checkpoint {
    /// An empty checkpoint made at `now_ms`, with a fresh ID.
    pub fn new_at(now_ms: i64) -> (r: Checkpoint)
        ensures
            r.id@.len() == 36,
            r.name is None && r.description is None,
            r.timestamp == now_ms,
            r.conversation is None,
            r.context_messages@.len() == 0,
            r.token_count == 0,
            !r.auto_created,
            r.tags@.len() == 0,
    {
        Checkpoint {
            id: crate::ids::new_uuid_v4(),
            name: None,
            description: None,
            timestamp: now_ms,
            conversation: None,
            context_messages: Vec::new(),
            token_count: 0,
            auto_created: false,
            tags: Vec::new(),
        }
    }

    /// An empty checkpoint made now.
    pub fn new() -> (r: Checkpoint)
        ensures
            r.id@.len() == 36,
            r.name is None && r.description is None,
            crate::clock::in_clock_range(r.timestamp as int),
            r.conversation is None,
            r.context_messages@.len() == 0,
            r.token_count == 0,
            !r.auto_created,
            r.tags@.len() == 0,
    {
        let now = crate::clock::now_millis();
        Self::new_at(now)
    }

    /// An empty named checkpoint made now.
    pub fn with_name(name: &str) -> (r: Checkpoint)
        ensures
            r.id@.len() == 36,
            r.name matches Some(n) && n@ == name@,
            r.description is None,
            crate::clock::in_clock_range(r.timestamp as int),
            r.context_messages@.len() == 0,
            r.token_count == 0,
            !r.auto_created,
            r.tags@.len() == 0,
            r.conversation is None,
    {
        Checkpoint { name: Some(owned(name)), ..Self::new() }
    }

    /// The same checkpoint with a description.
    pub fn description(self, desc: &str) -> (r: Checkpoint)
        ensures
            r.description matches Some(d) && d@ == desc@,
            r.name == self.name && r.id == self.id && r.tags == self.tags,
            r.timestamp == self.timestamp && r.auto_created == self.auto_created,
            r.token_count == self.token_count,
            r.context_messages == self.context_messages && r.conversation == self.conversation,
    {
        Checkpoint { description: Some(owned(desc)), ..self }
    }

    /// The same checkpoint, marked as made automatically.
    pub fn auto(self) -> (r: Checkpoint)
        ensures
            r.auto_created,
            r.name == self.name && r.id == self.id && r.tags == self.tags,
            r.timestamp == self.timestamp && r.token_count == self.token_count,
            r.context_messages == self.context_messages && r.conversation == self.conversation,
    {
        Checkpoint { auto_created: true, ..self }
    }

    /// The same checkpoint with one more tag.
    pub fn tag(self, tag: &str) -> (r: Checkpoint)
        ensures
            string_views(r.tags@) == string_views(self.tags@).push(tag@),
            r.name == self.name && r.id == self.id && r.auto_created == self.auto_created,
            r.timestamp == self.timestamp && r.token_count == self.token_count,
            r.context_messages == self.context_messages && r.conversation == self.conversation,
    {
        let mut me = self;
        let ghost t0 = string_views(me.tags@);
        me.tags.push(owned(tag));
        assert(string_views(me.tags@) =~= t0.push(tag@));
        me
    }

    /// The same checkpoint with context messages.
    pub fn with_context(self, messages: Vec<Message>) -> (r: Checkpoint)
        ensures
            r.context_messages == messages,
            r.name == self.name && r.id == self.id && r.tags == self.tags,
            r.timestamp == self.timestamp && r.token_count == self.token_count,
            r.auto_created == self.auto_created && r.conversation == self.conversation,
    {
        Checkpoint { context_messages: messages, ..self }
    }

    /// The same checkpoint with a conversation.
    pub fn with_conversation(self, conversation: Conversation) -> (r: Checkpoint)
        ensures
            r.conversation == Some(conversation),
            r.name == self.name && r.id == self.id && r.tags == self.tags,
            r.timestamp == self.timestamp && r.token_count == self.token_count,
            r.auto_created == self.auto_created && r.context_messages == self.context_messages,
    {
        Checkpoint { conversation: Some(conversation), ..self }
    }

    /// The same checkpoint with a token count.
    pub fn with_token_count(self, count: u32) -> (r: Checkpoint)
        ensures
            r.token_count == count,
            r.name == self.name && r.id == self.id && r.tags == self.tags,
            r.timestamp == self.timestamp && r.auto_created == self.auto_created,
            r.context_messages == self.context_messages && r.conversation == self.conversation,
    {
        Checkpoint { token_count: count, ..self }
    }

    /// The name the checkpoint is shown by.
    pub fn display_name(&self) -> (r: String)
        requires
            self.name is None ==> crate::clock::in_clock_range(self.timestamp as int),
        ensures
            r@ == display_text(*self),
    {
        match &self.name {
            Some(n) => owned(n.as_str()),
            None => {
                let mut v = chars_of("Checkpoint ");
                let t = format_utc(self.timestamp);
                extend_str(&mut v, t.as_str());
                string_from_chars(&v)
            },
        }
    }

    /// How long ago the checkpoint was made, at `now_ms`.
    pub fn age_at(&self, now_ms: i64) -> (r: String)
        ensures
            r@ == age_text(self.timestamp as int, now_ms as int),
    {
        let d: i128 = now_ms as i128 - self.timestamp as i128;
        let secs = whole_units(d, 1000);
        let mut v: Vec<char> = Vec::new();
        if secs < 60 {
            push_dec_i64(&mut v, secs as i64);
            extend_str(&mut v, " seconds ago");
        } else {
            let mins = whole_units(d, 60_000);
            if mins < 60 {
                push_dec_i64(&mut v, mins as i64);
                extend_str(&mut v, " minutes ago");
            } else {
                let hours = whole_units(d, 3_600_000);
                if hours < 24 {
                    push_dec_i64(&mut v, hours as i64);
                    extend_str(&mut v, " hours ago");
                } else {
                    let days = whole_units(d, 86_400_000);
                    push_dec_i64(&mut v, days as i64);
                    extend_str(&mut v, " days ago");
                }
            }
        }
        string_from_chars(&v)
    }

    /// How long ago the checkpoint was made.
    pub fn age(&self) -> (r: String)
        ensures
            exists|now: i64| r@ == age_text(self.timestamp as int, now as int),
    {
        let now = crate::clock::now_millis();
        self.age_at(now)
    }
}

/// Configuration of the checkpoint manager.
#[derive(Debug, Clone)]
pub struct CheckpointConfig {
    /// How many checkpoints are kept.
    pub max_checkpoints: usize,
    /// Make a checkpoint automatically every this many turns.
    pub auto_checkpoint_interval: Option<usize>,
    /// Make a checkpoint before each tool run.
    pub checkpoint_before_tools: bool,
    /// Checkpoints with one of these tags are removed last.
    pub preserve_tags: Vec<String>,
}

impl Default for CheckpointConfig {
    fn default() -> (r: CheckpointConfig)
        ensures
            r.max_checkpoints == 50,
            r.auto_checkpoint_interval == Some(5usize),
            r.checkpoint_before_tools,
            string_views(r.preserve_tags@) == seq!["important"@, "manual"@],
    {
        let mut tags: Vec<String> = Vec::new();
        tags.push(owned("important"));
        tags.push(owned("manual"));
        assert(string_views(tags@) =~= seq!["important"@, "manual"@]);
        CheckpointConfig {
            max_checkpoints: 50,
            auto_checkpoint_interval: Some(5),
            checkpoint_before_tools: true,
            preserve_tags: tags,
        }
    }
}

/// Whether the checkpoint holds a copy of the conversation, or none when
/// none is given.
pub open spec fn holds_conversation(cp: Checkpoint, conversation: Option<&Conversation>) -> bool {
    match conversation {
        Some(c) => cp.conversation matches Some(cc) && conversation_view(cc) == conversation_view(*c),
        None => cp.conversation is None,
    }
}

/// The view of an optional text.
pub open spec fn opt_text(o: Option<String>) -> Option<Seq<char>> {
    match o {
        Some(s) => Some(s@),
        None => None,
    }
}

/// Whether a checkpoint carries one of the preserved tags.
pub open spec fn preserved(cp: Checkpoint, preserve: Seq<Seq<char>>) -> bool {
    exists|i: int| 0 <= i < cp.tags@.len() && preserve.contains(#[trigger] cp.tags@[i]@)
}

/// The first checkpoint without a preserved tag, if any.
pub open spec fn first_unpreserved(cps: Seq<Checkpoint>, preserve: Seq<Seq<char>>) -> Option<int>
    decreases cps.len(),
{
    if cps.len() == 0 {
        None
    } else {
        match first_unpreserved(cps.drop_last(), preserve) {
            Some(i) => Some(i),
            None => if !preserved(cps.last(), preserve) {
                Some(cps.len() - 1)
            } else {
                None
            },
        }
    }
}

/// One eviction: the oldest checkpoint without a preserved tag, or the
/// oldest of all when every one is preserved.
pub open spec fn evict_one(cps: Seq<Checkpoint>, preserve: Seq<Seq<char>>) -> Seq<Checkpoint> {
    match first_unpreserved(cps, preserve) {
        Some(i) => cps.remove(i),
        None => cps.drop_first(),
    }
}

/// Evictions until at most `max` checkpoints remain.
pub open spec fn enforce(cps: Seq<Checkpoint>, max: int, preserve: Seq<Seq<char>>) -> Seq<Checkpoint>
    decreases cps.len(),
{
    if cps.len() > max && cps.len() > 0 {
        proof {
            lemma_first_unpreserved(cps, preserve);
        }
        enforce(evict_one(cps, preserve), max, preserve)
    } else {
        cps
    }
}

/// The first unpreserved checkpoint lies in range.
pub proof fn lemma_first_unpreserved(cps: Seq<Checkpoint>, preserve: Seq<Seq<char>>)
    ensures
        first_unpreserved(cps, preserve) matches Some(i) ==> 0 <= i < cps.len() && !preserved(
            cps[i],
            preserve,
        ) && forall|j: int| 0 <= j < i ==> preserved(#[trigger] cps[j], preserve),
        first_unpreserved(cps, preserve) is None ==> forall|j: int|
            0 <= j < cps.len() ==> preserved(#[trigger] cps[j], preserve),
    decreases cps.len(),
{
    if cps.len() > 0 {
        let pre = cps.drop_last();
        lemma_first_unpreserved(pre, preserve);
        match first_unpreserved(pre, preserve) {
            Some(i) => {
                assert(pre[i] == cps[i]);
                assert forall|j: int| 0 <= j < i implies preserved(#[trigger] cps[j], preserve) by {
                    assert(pre[j] == cps[j]);
                }
            },
            None => {
                assert forall|j: int| 0 <= j < cps.len() - 1 implies preserved(#[trigger] cps[j], preserve) by {
                    assert(pre[j] == cps[j]);
                }
            },
        }
    }
}

/// Manages the checkpoints of an agent, oldest first.
pub struct CheckpointManager {
    config: CheckpointConfig,
    checkpoints: Vec<Checkpoint>,
    turn_counter: usize,
}

impl CheckpointManager {
    /// The checkpoints, oldest first.
    pub closed spec fn stored(&self) -> Seq<Checkpoint> {
        self.checkpoints@
    }

    /// The configuration.
    pub closed spec fn cfg(&self) -> CheckpointConfig {
        self.config
    }

    /// Turns since the last automatic checkpoint.
    pub closed spec fn turns(&self) -> usize {
        self.turn_counter
    }

    /// A manager with the default configuration.
    pub fn new() -> (r: CheckpointManager)
        ensures
            r.stored().len() == 0,
            r.turns() == 0,
            r.cfg().max_checkpoints == 50,
    {
        Self::with_config(CheckpointConfig::default())
    }

    /// A manager with a configuration.
    pub fn with_config(config: CheckpointConfig) -> (r: CheckpointManager)
        ensures
            r.stored().len() == 0,
            r.turns() == 0,
            r.cfg() == config,
    {
        CheckpointManager { config, checkpoints: Vec::new(), turn_counter: 0 }
    }

    /// The configuration.
    pub fn config(&self) -> (r: &CheckpointConfig)
        ensures
            *r == self.cfg(),
    {
        &self.config
    }

    /// The index of the oldest checkpoint without a preserved tag.
    fn unpreserved_index(&self) -> (r: Option<usize>)
        ensures
            match r {
                Some(k) => first_unpreserved(self.checkpoints@, string_views(self.config.preserve_tags@))
                    == Some(k as int),
                None => first_unpreserved(self.checkpoints@, string_views(self.config.preserve_tags@)) is None,
            },
    {
        let ghost preserve = string_views(self.config.preserve_tags@);
        let mut i: usize = 0;
        while i < self.checkpoints.len()
            invariant
                i <= self.checkpoints@.len(),
                preserve == string_views(self.config.preserve_tags@),
                forall|j: int| 0 <= j < i ==> preserved(#[trigger] self.checkpoints@[j], preserve),
            decreases self.checkpoints@.len() - i,
        {
            let cp = &self.checkpoints[i];
            let mut keep = false;
            let mut t: usize = 0;
            while t < cp.tags.len()
                invariant
                    t <= cp.tags@.len(),
                    preserve == string_views(self.config.preserve_tags@),
                    keep == exists|m: int| 0 <= m < t && preserve.contains(#[trigger] cp.tags@[m]@),
                decreases cp.tags@.len() - t,
            {
                if contains_str(&self.config.preserve_tags, cp.tags[t].as_str()) {
                    keep = true;
                }
                t += 1;
            }
            if !keep {
                proof {
                    lemma_first_unpreserved_at(self.checkpoints@, preserve, i as int);
                }
                return Some(i);
            }
            i += 1;
        }
        proof {
            lemma_first_unpreserved_none(self.checkpoints@, preserve);
        }
        None
    }

    /// Removes checkpoints beyond the limit, sparing preserved ones while
    /// others remain.
    fn enforce_limit(&mut self)
        ensures
            final(self).checkpoints@ == enforce(
                old(self).checkpoints@,
                old(self).config.max_checkpoints as int,
                string_views(old(self).config.preserve_tags@),
            ),
            final(self).config == old(self).config,
            final(self).turn_counter == old(self).turn_counter,
    {
        let ghost preserve = string_views(self.config.preserve_tags@);
        while self.checkpoints.len() > self.config.max_checkpoints
            invariant
                self.config == old(self).config,
                self.turn_counter == old(self).turn_counter,
                preserve == string_views(self.config.preserve_tags@),
                enforce(self.checkpoints@, self.config.max_checkpoints as int, preserve) == enforce(
                    old(self).checkpoints@,
                    old(self).config.max_checkpoints as int,
                    preserve,
                ),
            decreases self.checkpoints@.len(),
        {
            let ghost cps = self.checkpoints@;
            proof {
                lemma_first_unpreserved(cps, preserve);
            }
            match self.unpreserved_index() {
                Some(idx) => {
                    self.checkpoints.remove(idx);
                },
                None => {
                    self.checkpoints.remove(0);
                    assert(self.checkpoints@ =~= cps.drop_first());
                },
            }
        }
    }

    /// Stores a checkpoint and applies the limit.
    fn add_checkpoint(&mut self, checkpoint: Checkpoint)
        ensures
            final(self).checkpoints@ == enforce(
                old(self).checkpoints@.push(checkpoint),
                old(self).config.max_checkpoints as int,
                string_views(old(self).config.preserve_tags@),
            ),
            final(self).config == old(self).config,
            final(self).turn_counter == old(self).turn_counter,
    {
        self.checkpoints.push(checkpoint);
        self.enforce_limit();
    }

    /// Makes a checkpoint of the context's messages and tokens, and of the
    /// conversation when given; gives back its ID.
    pub fn create_checkpoint(&mut self, context: &Context, conversation: Option<&Conversation>) -> (r:
        String)
        requires
            context.wf(),
        ensures
            r@.len() == 36,
            final(self).cfg() == old(self).cfg(),
            final(self).turns() == old(self).turns(),
            exists|cp: Checkpoint|
                #![trigger cp.id]
                cp.id@ == r@ && msg_views(cp.context_messages@) == seq![(Role::System, context.system())]
                    + context.history() && cp.token_count == context.tokens() as u32 && cp.name is None
                    && cp.tags@.len() == 0 && holds_conversation(cp, conversation) && final(self).stored() == enforce(
                    old(self).stored().push(cp),
                    old(self).cfg().max_checkpoints as int,
                    string_views(old(self).cfg().preserve_tags@),
                ),
    {
        let base = Checkpoint::new().with_context(context.messages()).with_token_count(
            context.token_count() as u32,
        );
        let checkpoint = match conversation {
            Some(conv) => base.with_conversation(conv.duplicate()),
            None => base,
        };
        assert(holds_conversation(checkpoint, conversation));
        let id = owned(checkpoint.id.as_str());
        self.add_checkpoint(checkpoint);
        id
    }

    /// Makes a named checkpoint tagged `manual`; see `create_checkpoint`.
    pub fn create_named_checkpoint(
        &mut self,
        name: &str,
        context: &Context,
        conversation: Option<&Conversation>,
    ) -> (r: String)
        requires
            context.wf(),
        ensures
            r@.len() == 36,
            final(self).cfg() == old(self).cfg(),
            exists|cp: Checkpoint|
                #![trigger cp.id]
                cp.id@ == r@ && opt_text(cp.name) == Some(name@) && string_views(cp.tags@)
                    == seq!["manual"@] && cp.token_count == context.tokens() as u32
                    && holds_conversation(cp, conversation) && final(self).stored() == enforce(
                    old(self).stored().push(cp),
                    old(self).cfg().max_checkpoints as int,
                    string_views(old(self).cfg().preserve_tags@),
                ),
    {
        let base = Checkpoint::with_name(name).with_context(context.messages()).with_token_count(
            context.token_count() as u32,
        ).tag("manual");
        assert(string_views(base.tags@) =~= seq!["manual"@]);
        let checkpoint = match conversation {
            Some(conv) => base.with_conversation(conv.duplicate()),
            None => base,
        };
        assert(holds_conversation(checkpoint, conversation));
        let id = owned(checkpoint.id.as_str());
        self.add_checkpoint(checkpoint);
        id
    }

    /// The index of the checkpoint with the ID.
    fn position(&self, id: &str) -> (r: Option<usize>)
        ensures
            match r {
                Some(k) => k < self.checkpoints@.len() && self.checkpoints@[k as int].id@ == id@
                    && forall|j: int| 0 <= j < k ==> #[trigger] self.checkpoints@[j].id@ != id@,
                None => forall|j: int|
                    0 <= j < self.checkpoints@.len() ==> #[trigger] self.checkpoints@[j].id@ != id@,
            },
    {
        let mut i: usize = 0;
        while i < self.checkpoints.len()
            invariant
                i <= self.checkpoints@.len(),
                forall|j: int| 0 <= j < i ==> #[trigger] self.checkpoints@[j].id@ != id@,
            decreases self.checkpoints@.len() - i,
        {
            if str_eq(self.checkpoints[i].id.as_str(), id) {
                return Some(i);
            }
            i += 1;
        }
        None
    }

    /// The first checkpoint with the ID.
    pub fn get(&self, id: &str) -> (r: Option<&Checkpoint>)
        ensures
            match r {
                Some(cp) => cp.id@ == id@ && exists|k: int|
                    0 <= k < self.stored().len() && self.stored()[k] == *cp && forall|j: int|
                        0 <= j < k ==> #[trigger] self.stored()[j].id@ != id@,
                None => forall|j: int| 0 <= j < self.stored().len() ==> #[trigger] self.stored()[j].id@ != id@,
            },
    {
        match self.position(id) {
            Some(k) => Some(&self.checkpoints[k]),
            None => None,
        }
    }

    /// The most recent checkpoint.
    pub fn latest(&self) -> (r: Option<&Checkpoint>)
        ensures
            match r {
                Some(cp) => self.stored().len() > 0 && *cp == self.stored().last(),
                None => self.stored().len() == 0,
            },
    {
        let n = self.checkpoints.len();
        if n == 0 {
            None
        } else {
            Some(&self.checkpoints[n - 1])
        }
    }

    /// The checkpoint `index` places before the most recent (0 is the most
    /// recent).
    pub fn get_from_latest(&self, index: usize) -> (r: Option<&Checkpoint>)
        ensures
            match r {
                Some(cp) => index < self.stored().len() && *cp == self.stored()[self.stored().len() - 1
                    - index],
                None => index >= self.stored().len(),
            },
    {
        let len = self.checkpoints.len();
        if index >= len {
            return None;
        }
        Some(&self.checkpoints[len - 1 - index])
    }

    /// The checkpoints, most recent first.
    pub fn list(&self) -> (r: Vec<&Checkpoint>)
        ensures
            r@.len() == self.stored().len(),
            forall|j: int| 0 <= j < r@.len() ==> *#[trigger] r@[j] == self.stored()[self.stored().len() - 1 - j],
    {
        let mut out: Vec<&Checkpoint> = Vec::new();
        let n = self.checkpoints.len();
        let mut i: usize = 0;
        while i < n
            invariant
                i <= n == self.checkpoints@.len(),
                out@.len() == i,
                forall|j: int| 0 <= j < i ==> *#[trigger] out@[j] == self.checkpoints@[n - 1 - j],
            decreases n - i,
        {
            out.push(&self.checkpoints[n - 1 - i]);
            i += 1;
        }
        out
    }

    /// The number of checkpoints.
    pub fn len(&self) -> (r: usize)
        ensures
            r == self.stored().len(),
    {
        self.checkpoints.len()
    }

    /// Whether there are no checkpoints.
    pub fn is_empty(&self) -> (r: bool)
        ensures
            r == (self.stored().len() == 0),
    {
        self.checkpoints.len() == 0
    }

    /// Deletes the first checkpoint with the ID; tells whether there was one.
    pub fn delete(&mut self, id: &str) -> (r: bool)
        ensures
            r == exists|j: int| 0 <= j < old(self).stored().len() && #[trigger] old(self).stored()[j].id@ == id@,
            r ==> final(self).stored().len() == old(self).stored().len() - 1,
            !r ==> final(self).stored() == old(self).stored(),
            final(self).cfg() == old(self).cfg(),
    {
        match self.position(id) {
            Some(k) => {
                self.checkpoints.remove(k);
                true
            },
            None => false,
        }
    }

    /// Deletes every checkpoint.
    pub fn clear(&mut self)
        ensures
            final(self).stored().len() == 0,
            final(self).cfg() == old(self).cfg(),
            final(self).turns() == old(self).turns(),
    {
        self.checkpoints = Vec::new();
    }

    /// The context messages and conversation of the checkpoint with the ID,
    /// to restore; a missing checkpoint is an error.
    pub fn restore(&self, id: &str) -> (r: Result<(Vec<Message>, Option<Conversation>), Error>)
        ensures
            (forall|j: int| 0 <= j < self.stored().len() ==> #[trigger] self.stored()[j].id@ != id@)
                ==> (r matches Err(Error::Config(m)) && m@ == "Checkpoint not found: "@ + id@),
            r is Ok <==> exists|k: int| 0 <= k < self.stored().len() && #[trigger] self.stored()[k].id@ == id@,
            r matches Ok((msgs, conv)) ==> exists|k: int|
                0 <= k < self.stored().len() && self.stored()[k].id@ == id@ && (forall|j: int|
                    0 <= j < k ==> #[trigger] self.stored()[j].id@ != id@) && msg_views(msgs@)
                    == msg_views(#[trigger] self.stored()[k].context_messages@) && (conv is Some
                    <==> self.stored()[k].conversation is Some),
    {
        match self.position(id) {
            None => {
                let mut m = chars_of("Checkpoint not found: ");
                extend_str(&mut m, id);
                Err(Error::Config(string_from_chars(&m)))
            },
            Some(k) => {
                let cp = &self.checkpoints[k];
                let mut msgs: Vec<Message> = Vec::new();
                let mut i: usize = 0;
                while i < cp.context_messages.len()
                    invariant
                        i <= cp.context_messages@.len(),
                        msg_views(msgs@) == msg_views(cp.context_messages@.take(i as int)),
                    decreases cp.context_messages@.len() - i,
                {
                    let ghost o = msgs@;
                    msgs.push(cp.context_messages[i].duplicate());
                    assert(msg_views(msgs@) =~= msg_views(o).push(msg_view(cp.context_messages@[i as int])));
                    assert(cp.context_messages@.take(i + 1) =~= cp.context_messages@.take(i as int).push(
                        cp.context_messages@[i as int],
                    ));
                    assert(msg_views(cp.context_messages@.take(i + 1)) =~= msg_views(
                        cp.context_messages@.take(i as int),
                    ).push(msg_view(cp.context_messages@[i as int])));
                    i += 1;
                }
                assert(cp.context_messages@.take(cp.context_messages@.len() as int)
                    =~= cp.context_messages@);
                assert(self.stored()[k as int].id@ == id@);
                assert(msg_views(msgs@) == msg_views(self.stored()[k as int].context_messages@));
                let conv = match &cp.conversation {
                    Some(c) => Some(c.clone()),
                    None => None,
                };
                Ok((msgs, conv))
            },
        }
    }

    /// Counts a turn; tells whether an automatic checkpoint is due, which
    /// starts the count anew.
    pub fn tick_turn(&mut self) -> (r: bool)
        requires
            old(self).turns() < usize::MAX,
        ensures
            r == match old(self).cfg().auto_checkpoint_interval {
                Some(n) => old(self).turns() + 1 >= n,
                None => false,
            },
            final(self).turns() == if r {
                0
            } else {
                old(self).turns() + 1
            },
            final(self).stored() == old(self).stored(),
            final(self).cfg() == old(self).cfg(),
    {
        self.turn_counter = self.turn_counter + 1;
        match self.config.auto_checkpoint_interval {
            Some(interval) => {
                if self.turn_counter >= interval {
                    self.turn_counter = 0;
                    return true;
                }
            },
            None => {},
        }
        false
    }

    /// Whether to make a checkpoint before each tool run.
    pub fn should_checkpoint_before_tool(&self) -> (r: bool)
        ensures
            r == self.cfg().checkpoint_before_tools,
    {
        self.config.checkpoint_before_tools
    }

    /// The checkpoints carrying a tag, oldest first.
    pub fn find_by_tag(&self, tag: &str) -> (r: Vec<&Checkpoint>)
        ensures
            r@.map_values(|c: &Checkpoint| *c) == self.stored().filter(
                |c: Checkpoint| string_views(c.tags@).contains(tag@),
            ),
            r@.len() <= self.stored().len(),
            forall|j: int|
                0 <= j < r@.len() ==> self.stored().contains(*#[trigger] r@[j]) && string_views(
                    r@[j].tags@,
                ).contains(tag@),
    {
        let mut out: Vec<&Checkpoint> = Vec::new();
        let ghost cs = self.checkpoints@;
        let mut i: usize = 0;
        while i < self.checkpoints.len()
            invariant
                i <= self.checkpoints@.len(),
                cs == self.checkpoints@,
                out@.len() <= i,
                out@.map_values(|c: &Checkpoint| *c) == cs.take(i as int).filter(
                    |c: Checkpoint| string_views(c.tags@).contains(tag@),
                ),
                forall|j: int|
                    0 <= j < out@.len() ==> self.checkpoints@.contains(*#[trigger] out@[j])
                        && string_views(out@[j].tags@).contains(tag@),
            decreases self.checkpoints@.len() - i,
        {
            let cp = &self.checkpoints[i];
            assert(cs.take(i + 1) =~= cs.take(i as int).push(cs[i as int]));
            let ghost o = out@;
            if contains_str(&cp.tags, tag) {
                out.push(cp);
                assert(self.checkpoints@.contains(self.checkpoints@[i as int]));
                assert(out@.map_values(|c: &Checkpoint| *c) =~= o.map_values(|c: &Checkpoint| *c).push(
                    cs[i as int],
                ));
            }
            proof {
                cs.take(i as int).lemma_filter_push(
                    cs[i as int],
                    |c: Checkpoint| string_views(c.tags@).contains(tag@),
                );
            }
            i += 1;
        }
        assert(cs.take(cs.len() as int) =~= cs);
        out
    }

    /// A summary for display at `now_ms`: the count, the limit, and the five
    /// most recent checkpoints with name, age, tokens and whether automatic.
    pub fn summary_at(&self, now_ms: i64) -> (r: String)
        requires
            forall|j: int|
                0 <= j < self.stored().len() ==> (#[trigger] self.stored()[j]).name is None ==> crate::clock::in_clock_range(
                    self.stored()[j].timestamp as int,
                ),
        ensures
            r@ == summary_text(self.stored(), self.cfg().max_checkpoints as nat, now_ms as int),
            r@.len() > 0,
    {
        let ghost cps = self.stored();
        let mut out = chars_of("Checkpoints: ");
        push_dec(&mut out, self.checkpoints.len() as u64);
        extend_str(&mut out, "\nMax: ");
        push_dec(&mut out, self.config.max_checkpoints as u64);
        extend_str(&mut out, "\n\n");
        let ghost head = out@;
        let n = self.checkpoints.len();
        let mut i: usize = 0;
        while i < n && i < 5
            invariant
                n == self.checkpoints@.len(),
                cps == self.stored(),
                i <= n,
                i <= 5,
                out@ == head + summary_lines(cps, now_ms as int, i as nat),
                forall|j: int|
                    0 <= j < self.stored().len() ==> (#[trigger] self.stored()[j]).name is None
                        ==> crate::clock::in_clock_range(self.stored()[j].timestamp as int),
            decreases n - i,
        {
            let cp = &self.checkpoints[n - 1 - i];
            assert(self.stored()[n - 1 - i] == *cp);
            push_summary_line(&mut out, i + 1, cp, now_ms);
            assert(cps[cps.len() - (i + 1)] == *cp);
            i += 1;
        }
        let ghost shown = if n <= 5 { n as nat } else { 5nat };
        assert(i == shown);
        let ghost lines = out@;
        if n > 5 {
            extend_str(&mut out, "... and ");
            push_dec(&mut out, (n - 5) as u64);
            extend_str(&mut out, " more\n");
        }
        assert(out@ =~= summary_text(cps, self.config.max_checkpoints as nat, now_ms as int));
        string_from_chars(&out)
    }

    /// A summary for display now; see `summary_at`.
    pub fn summary(&self) -> (r: String)
        requires
            forall|j: int|
                0 <= j < self.stored().len() ==> (#[trigger] self.stored()[j]).name is None ==> crate::clock::in_clock_range(
                    self.stored()[j].timestamp as int,
                ),
        ensures
            exists|now: i64|
                crate::clock::in_clock_range(now as int) && r@ == #[trigger] summary_text(
                    self.stored(),
                    self.cfg().max_checkpoints as nat,
                    now as int,
                ),
            r@.len() > 0,
    {
        let now = crate::clock::now_millis();
        self.summary_at(now)
    }
}

/// The first unpreserved checkpoint is the first one found.
proof fn lemma_first_unpreserved_at(cps: Seq<Checkpoint>, preserve: Seq<Seq<char>>, i: int)
    requires
        0 <= i < cps.len(),
        !preserved(cps[i], preserve),
        forall|j: int| 0 <= j < i ==> preserved(#[trigger] cps[j], preserve),
    ensures
        first_unpreserved(cps, preserve) == Some(i),
    decreases cps.len(),
{
    let pre = cps.drop_last();
    if i < cps.len() - 1 {
        assert forall|j: int| 0 <= j < i implies preserved(#[trigger] pre[j], preserve) by {
            assert(pre[j] == cps[j]);
        }
        assert(pre[i] == cps[i]);
        lemma_first_unpreserved_at(pre, preserve, i);
    } else {
        assert forall|j: int| 0 <= j < pre.len() implies preserved(#[trigger] pre[j], preserve) by {
            assert(pre[j] == cps[j]);
        }
        lemma_first_unpreserved_none(pre, preserve);
    }
}

/// When every checkpoint is preserved, there is no unpreserved one.
proof fn lemma_first_unpreserved_none(cps: Seq<Checkpoint>, preserve: Seq<Seq<char>>)
    requires
        forall|j: int| 0 <= j < cps.len() ==> preserved(#[trigger] cps[j], preserve),
    ensures
        first_unpreserved(cps, preserve) is None,
    decreases cps.len(),
{
    if cps.len() > 0 {
        let pre = cps.drop_last();
        assert forall|j: int| 0 <= j < pre.len() implies preserved(#[trigger] pre[j], preserve) by {
            assert(pre[j] == cps[j]);
        }
        lemma_first_unpreserved_none(pre, preserve);
    }
}

impl Default for CheckpointManager {
    fn default() -> (r: CheckpointManager)
        ensures
            r.stored().len() == 0,
    {
        CheckpointManager::new()
    }
}

} // verus!
