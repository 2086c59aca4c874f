//! How many consumers have been requested for each topic.
use vstd::prelude::*;

verus! {

/// The map from topics to counts that two parallel sequences describe, a
/// later entry overriding an earlier one for the same topic.
pub open spec fn counter_map(topics: Seq<Seq<char>>, counts: Seq<u64>) -> Map<Seq<char>, u64>
    decreases topics.len(),
{
    if topics.len() == 0 {
        Map::empty()
    } else {
        counter_map(topics.drop_last(), counts.drop_last()).insert(
            topics.last(),
            counts[topics.len() - 1],
        )
    }
}

/// No topic occurs twice.
pub open spec fn distinct_topics(topics: Seq<Seq<char>>) -> bool {
    forall|i: int, j: int| 0 <= i < j < topics.len() ==> topics[i] != topics[j]
}

/// A topic is counted exactly when it occurs in the sequence.
proof fn lemma_counter_map_domain(topics: Seq<Seq<char>>, counts: Seq<u64>, t: Seq<char>)
    requires
        topics.len() == counts.len(),
    ensures
        counter_map(topics, counts).contains_key(t) <==> exists|i: int|
            0 <= i < topics.len() && topics[i] == t,
    decreases topics.len(),
{
    if topics.len() > 0 {
        lemma_counter_map_domain(topics.drop_last(), counts.drop_last(), t);
        if counter_map(topics, counts).contains_key(t) && t != topics.last() {
            let i = choose|i: int| 0 <= i < topics.len() - 1 && topics.drop_last()[i] == t;
            assert(topics[i] == t);
        }
        if exists|i: int| 0 <= i < topics.len() && topics[i] == t {
            let i = choose|i: int| 0 <= i < topics.len() && topics[i] == t;
            if i < topics.len() - 1 {
                assert(topics.drop_last()[i] == t);
            }
        }
    }
}

/// With distinct topics, the count of the `i`-th topic is the `i`-th count.
proof fn lemma_counter_map_value(topics: Seq<Seq<char>>, counts: Seq<u64>, i: int)
    requires
        topics.len() == counts.len(),
        distinct_topics(topics),
        0 <= i < topics.len(),
    ensures
        counter_map(topics, counts).contains_key(topics[i]),
        counter_map(topics, counts)[topics[i]] == counts[i],
    decreases topics.len(),
{
    if i < topics.len() - 1 {
        assert(distinct_topics(topics.drop_last()));
        lemma_counter_map_value(topics.drop_last(), counts.drop_last(), i);
        assert(topics[i] != topics.last());
        assert(topics.drop_last()[i] == topics[i]);
    }
}

/// Changing the `i`-th count changes the count of the `i`-th topic only.
proof fn lemma_counter_map_update(topics: Seq<Seq<char>>, counts: Seq<u64>, i: int, v: u64)
    requires
        topics.len() == counts.len(),
        distinct_topics(topics),
        0 <= i < topics.len(),
    ensures
        counter_map(topics, counts.update(i, v)) == counter_map(topics, counts).insert(topics[i], v),
    decreases topics.len(),
{
    let updated = counts.update(i, v);
    if i == topics.len() - 1 {
        assert(updated.drop_last() =~= counts.drop_last());
        assert(counter_map(topics, updated) =~= counter_map(topics, counts).insert(topics[i], v));
    } else {
        assert(distinct_topics(topics.drop_last()));
        lemma_counter_map_update(topics.drop_last(), counts.drop_last(), i, v);
        assert(updated.drop_last() =~= counts.drop_last().update(i, v));
        assert(topics.drop_last()[i] == topics[i]);
        assert(topics[i] != topics.last());
        assert(counter_map(topics, updated) =~= counter_map(topics, counts).insert(topics[i], v));
    }
}

/// Per-topic counts, kept as two parallel vectors.
pub struct TopicCounters {
    topics: Vec<String>,
    counts: Vec<u64>,
}

impl View for TopicCounters {
    type V = Map<Seq<char>, u64>;

    closed spec fn view(&self) -> Map<Seq<char>, u64> {
        counter_map(self.topic_seq(), self.counts@)
    }
}

impl TopicCounters {
    closed spec fn topic_seq(&self) -> Seq<Seq<char>> {
        self.topics@.map_values(|t: String| t@)
    }

    /// The vectors have one count per topic and no topic occurs twice.
    pub closed spec fn wf(&self) -> bool {
        &&& self.topics@.len() == self.counts@.len()
        &&& distinct_topics(self.topic_seq())
    }

    /// No topic counted yet.
    pub fn new() -> (counters: Self)
        ensures
            counters.wf(),
            counters@ == Map::<Seq<char>, u64>::empty(),
    {
        let counters = TopicCounters { topics: Vec::new(), counts: Vec::new() };
        assert(counters.topic_seq() =~= Seq::<Seq<char>>::empty());
        counters
    }

    fn find(&self, topic: &String) -> (r: Option<usize>)
        requires
            self.wf(),
        ensures
            match r {
                Some(i) => i < self.topics@.len() && self.topic_seq()[i as int] == topic@,
                None => forall|i: int|
                    0 <= i < self.topics@.len() ==> self.topic_seq()[i] != topic@,
            },
    {
        let mut i: usize = 0;
        while i < self.topics.len()
            invariant
                i <= self.topics@.len(),
                forall|j: int| 0 <= j < i ==> self.topic_seq()[j] != topic@,
            decreases self.topics@.len() - i,
        {
            if self.topics[i] == *topic {
                return Some(i);
            }
            i = i + 1;
        }
        None
    }

    /// The count of `topic`, 0 where it was never counted.
    pub fn count_of(&self, topic: &String) -> (n: u64)
        requires
            self.wf(),
        ensures
            n == (if self@.contains_key(topic@) { self@[topic@] } else { 0 }),
    {
        proof {
            lemma_counter_map_domain(self.topic_seq(), self.counts@, topic@);
        }
        match self.find(topic) {
            Some(i) => {
                proof {
                    lemma_counter_map_value(self.topic_seq(), self.counts@, i as int);
                }
                self.counts[i]
            },
            None => 0,
        }
    }

    /// Adds one to the count of `topic` and hands back the new count.
    pub fn increment(&mut self, topic: &String) -> (n: u64)
        requires
            old(self).wf(),
            old(self)@.contains_key(topic@) ==> old(self)@[topic@] < u64::MAX,
        ensures
            final(self).wf(),
            n == (if old(self)@.contains_key(topic@) { old(self)@[topic@] } else { 0 }) + 1,
            final(self)@ == old(self)@.insert(topic@, n),
    {
        proof {
            lemma_counter_map_domain(self.topic_seq(), self.counts@, topic@);
        }
        match self.find(topic) {
            Some(i) => {
                proof {
                    lemma_counter_map_value(self.topic_seq(), self.counts@, i as int);
                    lemma_counter_map_update(
                        self.topic_seq(),
                        self.counts@,
                        i as int,
                        (self.counts@[i as int] + 1) as u64,
                    );
                }
                let n = self.counts[i] + 1;
                self.counts.set(i, n);
                n
            },
            None => {
                let ghost before = self.topic_seq();
                self.topics.push(topic.clone());
                self.counts.push(1);
                assert(self.topic_seq() =~= before.push(topic@));
                assert(self.topic_seq().drop_last() =~= before);
                assert(self.counts@.drop_last() =~= old(self).counts@);
                1
            },
        }
    }
}

} // verus!
