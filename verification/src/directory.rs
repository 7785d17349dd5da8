//! The directory of channels: which log server tracks which channels, every
//! channel once, and how many servers answered. It is built once from the
//! outcomes of one fan-out and only read afterwards.

use crate::dedup::{
    first_occurrences, lemma_absorb_concat, lemma_first_occurrences, lemma_flatten_contains, views,
    DedupSet,
};
use crate::dispatch::Dispatch;
use crate::fanout::FanOut;
use crate::listmap::ListMap;
use crate::logs::{
    distinct_instances, distinct_requests, Channel, ChannelView, ChannelsResponse, Outcome,
};
use vstd::prelude::*;

verus! {

/// How many log servers were asked, and how many of them gave nothing.
#[derive(Debug, Clone, Copy, PartialEq, Eq, Structural)]
pub struct InstancesStats {
    /// The number of log servers that were asked.
    pub count: usize,
    /// The number of them that were not reached or not understood.
    pub down: usize,
}

/// Whether the request gave nothing.
pub open spec fn failed<T>(outcome: Outcome<T>) -> bool {
    outcome.result is Err
}

/// The number of requests that gave nothing.
pub open spec fn failures<T>(outcomes: Seq<Outcome<T>>) -> nat {
    outcomes.filter(|outcome: Outcome<T>| failed(outcome)).len()
}

/// The channels that one log server lists, or none where it failed.
pub open spec fn listed_channels(outcome: Outcome<ChannelsResponse>) -> Seq<ChannelView> {
    match outcome.result {
        Ok(response) => views(response.channels@),
        Err(_) => Seq::empty(),
    }
}

/// Every channel of every log server that answered, in the order in which the
/// answers came in.
pub open spec fn gathered_channels(outcomes: Seq<Outcome<ChannelsResponse>>) -> Seq<ChannelView> {
    outcomes.map_values(|outcome: Outcome<ChannelsResponse>| listed_channels(outcome)).flatten()
}

/// The channel list of each log server that answered, under the server's
/// name. A server that failed leaves no entry; where one name answers twice,
/// the later list stands.
pub open spec fn instance_lists(outcomes: Seq<Outcome<ChannelsResponse>>) -> Map<
    Seq<char>,
    Seq<ChannelView>,
>
    decreases outcomes.len(),
{
    if outcomes.len() == 0 {
        Map::empty()
    } else {
        let before = instance_lists(outcomes.drop_last());
        let last = outcomes.last();
        if failed(last) {
            before
        } else {
            before.insert(last.instance@, listed_channels(last))
        }
    }
}

/// The names of the log servers that answered, in the order in which the
/// answers came in.
pub open spec fn answered_names<T>(outcomes: Seq<Outcome<T>>) -> Seq<Seq<char>> {
    outcomes.filter(|outcome: Outcome<T>| !failed(outcome)).map_values(
        |outcome: Outcome<T>| outcome.instance@,
    )
}

/// Listing one outcome more adds its name at the end exactly when it answered.
proof fn lemma_answered_names_step<T>(outcomes: Seq<Outcome<T>>, i: int)
    requires
        0 <= i < outcomes.len(),
    ensures
        answered_names(outcomes.take(i + 1)) == if failed(outcomes[i]) {
            answered_names(outcomes.take(i))
        } else {
            answered_names(outcomes.take(i)).push(outcomes[i].instance@)
        },
{
    let pred = |outcome: Outcome<T>| !failed(outcome);
    let name = |outcome: Outcome<T>| outcome.instance@;
    reveal(Seq::filter);
    assert(outcomes.take(i + 1).drop_last() =~= outcomes.take(i));
    assert(outcomes.take(i + 1).last() == outcomes[i]);
    let front = outcomes.take(i).filter(pred);
    if !failed(outcomes[i]) {
        assert(front.push(outcomes[i]).map_values(name) =~= front.map_values(name).push(
            outcomes[i].instance@,
        ));
    }
}

/// Counting one outcome more adds one exactly when it failed, so no more
/// requests failed than were made.
pub proof fn lemma_failures_step<T>(outcomes: Seq<Outcome<T>>, i: int)
    requires
        0 <= i < outcomes.len(),
    ensures
        failures(outcomes.take(i + 1)) == failures(outcomes.take(i)) + if failed(outcomes[i]) {
            1nat
        } else {
            0nat
        },
        failures(outcomes.take(i)) <= i,
{
    let pred = |outcome: Outcome<T>| failed(outcome);
    reveal(Seq::filter);
    assert(outcomes.take(i + 1).drop_last() =~= outcomes.take(i));
    assert(outcomes.take(i + 1).last() == outcomes[i]);
    outcomes.take(i).lemma_filter_len(pred);
}

/// No more requests failed than were made.
pub proof fn lemma_failures_bound<T>(outcomes: Seq<Outcome<T>>)
    ensures
        failures(outcomes) <= outcomes.len(),
{
    outcomes.lemma_filter_len(|outcome: Outcome<T>| failed(outcome));
}

/// A channel is gathered exactly when some log server that answered lists it.
pub proof fn lemma_gathered_channels(outcomes: Seq<Outcome<ChannelsResponse>>, channel: ChannelView)
    ensures
        gathered_channels(outcomes).contains(channel) <==> exists|i: int, j: int|
            0 <= i < outcomes.len() && 0 <= j < listed_channels(outcomes[i]).len()
                && #[trigger] listed_channels(outcomes[i])[j] == channel,
{
    let parts = outcomes.map_values(|outcome: Outcome<ChannelsResponse>| listed_channels(outcome));
    lemma_flatten_contains(parts, channel);
    if gathered_channels(outcomes).contains(channel) {
        let (i, j) = choose|i: int, j: int|
            0 <= i < parts.len() && 0 <= j < parts[i].len() && #[trigger] parts[i][j] == channel;
        assert(listed_channels(outcomes[i])[j] == channel);
    }
    if exists|i: int, j: int|
        0 <= i < outcomes.len() && 0 <= j < listed_channels(outcomes[i]).len()
            && #[trigger] listed_channels(outcomes[i])[j] == channel {
        let (i, j) = choose|i: int, j: int|
            0 <= i < outcomes.len() && 0 <= j < listed_channels(outcomes[i]).len()
                && #[trigger] listed_channels(outcomes[i])[j] == channel;
        assert(parts[i][j] == channel);
    }
}

/// Gathering one outcome more adds its channels at the end.
proof fn lemma_gathered_channels_step(outcomes: Seq<Outcome<ChannelsResponse>>, i: int)
    requires
        0 <= i < outcomes.len(),
    ensures
        gathered_channels(outcomes.take(i + 1)) == gathered_channels(outcomes.take(i))
            + listed_channels(outcomes[i]),
{
    let part = |outcome: Outcome<ChannelsResponse>| listed_channels(outcome);
    let front = outcomes.take(i).map_values(part);
    assert(outcomes.take(i + 1).map_values(part) =~= front.push(listed_channels(outcomes[i])));
    front.lemma_flatten_push(listed_channels(outcomes[i]));
}

/// A name has an entry exactly when a log server of that name answered.
pub proof fn lemma_instance_lists_domain(outcomes: Seq<Outcome<ChannelsResponse>>, name: Seq<char>)
    ensures
        instance_lists(outcomes).contains_key(name) <==> exists|i: int|
            0 <= i < outcomes.len() && !failed(#[trigger] outcomes[i]) && outcomes[i].instance@
                == name,
    decreases outcomes.len(),
{
    if outcomes.len() > 0 {
        let front = outcomes.drop_last();
        let last = outcomes.last();
        lemma_instance_lists_domain(front, name);
        if instance_lists(outcomes).contains_key(name) {
            if instance_lists(front).contains_key(name) {
                let i = choose|i: int|
                    0 <= i < front.len() && !failed(#[trigger] front[i]) && front[i].instance@
                        == name;
                assert(!failed(outcomes[i]) && outcomes[i].instance@ == name);
            } else {
                assert(!failed(outcomes[outcomes.len() - 1]) && last.instance@ == name);
            }
        }
        if exists|i: int|
            0 <= i < outcomes.len() && !failed(#[trigger] outcomes[i]) && outcomes[i].instance@
                == name {
            let i = choose|i: int|
                0 <= i < outcomes.len() && !failed(#[trigger] outcomes[i]) && outcomes[i].instance@
                    == name;
            if i < front.len() {
                assert(!failed(front[i]) && front[i].instance@ == name);
            }
        }
    }
}

/// Where every log server was asked once, one that failed has no entry, not
/// even an empty one, and one that answered has its own list as its entry.
pub proof fn lemma_instance_entry(outcomes: Seq<Outcome<ChannelsResponse>>, i: int)
    requires
        distinct_instances(outcomes),
        0 <= i < outcomes.len(),
    ensures
        failed(outcomes[i]) ==> !instance_lists(outcomes).contains_key(outcomes[i].instance@),
        !failed(outcomes[i]) ==> instance_lists(outcomes).contains_key(outcomes[i].instance@)
            && instance_lists(outcomes)[outcomes[i].instance@] == listed_channels(outcomes[i]),
    decreases outcomes.len(),
{
    let front = outcomes.drop_last();
    let last = outcomes.last();
    let name = outcomes[i].instance@;
    assert(distinct_instances(front)) by {
        assert forall|a: int, b: int|
            0 <= a < front.len() && 0 <= b < front.len() && a != b implies front[a].instance@
            != front[b].instance@ by {
            assert(front[a] == outcomes[a] && front[b] == outcomes[b]);
        }
    }
    if i < front.len() {
        lemma_instance_entry(front, i);
        assert(front[i] == outcomes[i]);
        assert(last.instance@ != name) by {
            assert(last == outcomes[outcomes.len() - 1]);
        }
    } else {
        lemma_instance_lists_domain(front, name);
        if instance_lists(front).contains_key(name) {
            let j = choose|j: int|
                0 <= j < front.len() && !failed(#[trigger] front[j]) && front[j].instance@ == name;
            assert(front[j] == outcomes[j]);
        }
    }
}

/// Where every log server was asked once, the gathered channels are those
/// of the entries: a channel is gathered exactly when the list of some entry
/// holds it.
pub proof fn lemma_gathered_is_union_of_entries(
    outcomes: Seq<Outcome<ChannelsResponse>>,
    channel: ChannelView,
)
    requires
        distinct_instances(outcomes),
    ensures
        gathered_channels(outcomes).contains(channel) <==> exists|name: Seq<char>, j: int|
            instance_lists(outcomes).contains_key(name) && 0 <= j < instance_lists(
                outcomes,
            )[name].len() && #[trigger] instance_lists(outcomes)[name][j] == channel,
{
    let lists = instance_lists(outcomes);
    lemma_gathered_channels(outcomes, channel);
    if gathered_channels(outcomes).contains(channel) {
        let (i, j) = choose|i: int, j: int|
            0 <= i < outcomes.len() && 0 <= j < listed_channels(outcomes[i]).len()
                && #[trigger] listed_channels(outcomes[i])[j] == channel;
        lemma_instance_entry(outcomes, i);
        assert(lists[outcomes[i].instance@][j] == channel);
    }
    if exists|name: Seq<char>, j: int|
        lists.contains_key(name) && 0 <= j < lists[name].len() && #[trigger] lists[name][j]
            == channel {
        let (name, j) = choose|name: Seq<char>, j: int|
            lists.contains_key(name) && 0 <= j < lists[name].len() && #[trigger] lists[name][j]
                == channel;
        lemma_instance_lists_domain(outcomes, name);
        let i = choose|i: int|
            0 <= i < outcomes.len() && !failed(#[trigger] outcomes[i]) && outcomes[i].instance@
                == name;
        lemma_instance_entry(outcomes, i);
        assert(listed_channels(outcomes[i])[j] == channel);
    }
}

/// What the directory of a finished fan-out holds, where no two requests went
/// to the same log server: as many outcomes are counted as requests were
/// made, no more of them failed than were made, a server that failed has no
/// entry, and a server that answered has its own list as its entry.
pub proof fn lemma_directory_of_finished_fan_out(fan_out: FanOut<ChannelsResponse>, i: int)
    requires
        fan_out.wf(),
        distinct_requests(fan_out.requests()),
        fan_out.schedule().upcoming() == Dispatch::Done,
        0 <= i < fan_out.outcomes().len(),
    ensures
        fan_out.outcomes().len() == fan_out.requests().len(),
        failures(fan_out.outcomes()) <= fan_out.requests().len(),
        failed(fan_out.outcomes()[i]) ==> !instance_lists(fan_out.outcomes()).contains_key(
            fan_out.outcomes()[i].instance@,
        ),
        !failed(fan_out.outcomes()[i]) ==> instance_lists(fan_out.outcomes()).contains_key(
            fan_out.outcomes()[i].instance@,
        ) && instance_lists(fan_out.outcomes())[fan_out.outcomes()[i].instance@]
            == listed_channels(fan_out.outcomes()[i]),
{
    fan_out.lemma_every_request_once();
    fan_out.lemma_distinct_outcomes();
    lemma_failures_bound(fan_out.outcomes());
    lemma_instance_entry(fan_out.outcomes(), i);
}

/// The directory of channels. It cannot be changed once it is built.
#[derive(Debug, Clone)]
pub struct ChannelDirectory {
    channel_map: ListMap<Vec<Channel>>,
    unique_channels: DedupSet<Channel>,
    stats: InstancesStats,
}

impl ChannelDirectory {
    /// The channel list of each log server that answered, under its name.
    pub closed spec fn instances(&self) -> Map<Seq<char>, Seq<ChannelView>> {
        Map::new(
            |name: Seq<char>| self.channel_map@.contains_key(name),
            |name: Seq<char>| views(self.channel_map@[name]@),
        )
    }

    /// The names of the log servers that answered, each once, in the order
    /// of its first answer.
    pub closed spec fn instance_order(&self) -> Seq<Seq<char>> {
        self.channel_map.keys()
    }

    /// Every channel that some log server tracks.
    pub closed spec fn unique(&self) -> Set<ChannelView> {
        self.unique_channels@
    }

    /// Every channel that some log server tracks, once, in the order of its
    /// first arrival.
    pub closed spec fn unique_order(&self) -> Seq<ChannelView> {
        self.unique_channels.order()
    }

    /// How many log servers were asked, and how many gave nothing.
    pub closed spec fn counters(&self) -> InstancesStats {
        self.stats
    }

    /// No log server has two entries, no channel is held twice, and no more
    /// servers are counted as down than were asked.
    pub closed spec fn wf(&self) -> bool {
        &&& self.channel_map.wf()
        &&& self.unique_channels.wf()
        &&& self.stats.down <= self.stats.count
    }

    /// In a well-formed directory every channel stands once, and no more log
    /// servers are down than were asked.
    pub proof fn lemma_wf(&self)
        requires
            self.wf(),
        ensures
            self.unique_order().no_duplicates(),
            self.unique_order().to_set() == self.unique(),
            self.unique_order().len() == self.unique().len(),
            self.counters().down <= self.counters().count,
    {
        self.unique_order().unique_seq_to_set();
    }

    /// Builds the directory from the outcomes of asking every log server for
    /// its channels, given in the order in which they came in. Every outcome
    /// is counted; one that failed is counted as down and leaves no entry. A
    /// server that answered is entered with its full list, and each of its
    /// channels joins the channels of all servers unless it is there already.
    pub fn build(outcomes: Vec<Outcome<ChannelsResponse>>) -> (directory: ChannelDirectory)
        ensures
            directory.wf(),
            directory.counters().count == outcomes@.len(),
            directory.counters().down == failures(outcomes@),
            directory.counters().down <= directory.counters().count,
            directory.unique_order() == first_occurrences(gathered_channels(outcomes@)),
            directory.unique_order().no_duplicates(),
            directory.unique() == gathered_channels(outcomes@).to_set(),
            directory.instances() == instance_lists(outcomes@),
            directory.instance_order() == first_occurrences(answered_names(outcomes@)),
    {
        let count: usize = outcomes.len();
        let ghost all = outcomes@;
        let mut down: usize = 0;
        let mut channel_map: ListMap<Vec<Channel>> = ListMap::new();
        let mut unique_channels: DedupSet<Channel> = DedupSet::new();
        proof {
            assert(gathered_channels(all.take(0)) =~= Seq::<ChannelView>::empty());
            reveal(Seq::filter);
            assert(failures(all.take(0)) == 0);
            assert(lists_of(channel_map) =~= instance_lists(all.take(0)));
            assert(answered_names(all.take(0)) =~= Seq::<Seq<char>>::empty());
        }
        for outcome in it: outcomes
            invariant
                it.seq() == all,
                count == all.len(),
                channel_map.wf(),
                unique_channels.wf(),
                down == failures(all.take(it.index() as int)),
                unique_channels.order() == first_occurrences(
                    gathered_channels(all.take(it.index() as int)),
                ),
                lists_of(channel_map) == instance_lists(all.take(it.index() as int)),
                channel_map.keys() == first_occurrences(
                    answered_names(all.take(it.index() as int)),
                ),
        {
            let ghost i = it.index() as int;
            proof {
                assert(outcome == all[i]);
                lemma_failures_step(all, i);
                lemma_answered_names_step(all, i);
                lemma_gathered_channels_step(all, i);
                lemma_absorb_concat(
                    Seq::<ChannelView>::empty(),
                    gathered_channels(all.take(i)),
                    listed_channels(all[i]),
                );
                assert(all.take(i + 1).drop_last() =~= all.take(i));
                assert(all.take(i + 1).last() == all[i]);
            }
            let ghost before = channel_map;
            match outcome.result {
                Ok(response) => {
                    unique_channels.extend(&response.channels);
                    channel_map.insert(outcome.instance, response.channels);
                    proof {
                        assert(lists_of(channel_map) =~= lists_of(before).insert(
                            outcome.instance@,
                            listed_channels(outcome),
                        ));
                        let names = answered_names(all.take(i));
                        assert(names.push(outcome.instance@).drop_last() =~= names);
                        assert(before@.contains_key(outcome.instance@) == before.keys().contains(
                            outcome.instance@,
                        ));
                    }
                },
                Err(_) => {
                    down += 1;
                },
            }
        }
        proof {
            assert(all.take(all.len() as int) =~= all);
            lemma_first_occurrences(gathered_channels(all));
            lemma_failures_bound(all);
        }
        ChannelDirectory {
            channel_map,
            unique_channels,
            stats: InstancesStats { count, down },
        }
    }

    /// How many log servers were asked, and how many gave nothing.
    pub fn stats(&self) -> (stats: InstancesStats)
        ensures
            stats == self.counters(),
    {
        self.stats
    }

    /// Every channel that some log server tracks, each once.
    pub fn unique_channels(&self) -> (channels: &DedupSet<Channel>)
        ensures
            channels@ == self.unique(),
            channels.order() == self.unique_order(),
            self.wf() ==> channels.wf(),
    {
        &self.unique_channels
    }

    /// The channel list of each log server that answered, under its name.
    pub fn channel_map(&self) -> (map: &ListMap<Vec<Channel>>)
        ensures
            lists_of(*map) == self.instances(),
            map.keys() == self.instance_order(),
            self.wf() ==> map.wf(),
    {
        &self.channel_map
    }
}

/// What a map of channel lists stands for.
pub open spec fn lists_of(map: ListMap<Vec<Channel>>) -> Map<Seq<char>, Seq<ChannelView>> {
    Map::new(
        |name: Seq<char>| map@.contains_key(name),
        |name: Seq<char>| views(map@[name]@),
    )
}

} // verus!
