//! Task registry and output history.
//!
//! A `DownloadManager` tracks the running task handles by tag and keeps an
//! append-only output buffer per tag.  The handle type is a parameter: the
//! caller registers whatever it uses to supervise a subprocess, and
//! cancellation hands that handle back rather than acting on it here.

use vstd::prelude::*;

verus! {

/// The map described by a sequence of key/value pairs, later pairs winning.
pub open spec fn assoc_map<V>(entries: Seq<(Seq<char>, V)>) -> Map<Seq<char>, V>
    decreases entries.len(),
{
    if entries.len() == 0 {
        Map::empty()
    } else {
        assoc_map(entries.drop_last()).insert(entries.last().0, entries.last().1)
    }
}

/// No key occurs twice.
pub open spec fn unique_keys<V>(entries: Seq<(Seq<char>, V)>) -> bool {
    forall|i: int, j: int| 0 <= i < j < entries.len() ==> entries[i].0 != entries[j].0
}

proof fn lemma_assoc_map_dom<V>(entries: Seq<(Seq<char>, V)>, key: Seq<char>)
    ensures
        assoc_map(entries).contains_key(key) <==> exists|i: int|
            0 <= i < entries.len() && entries[i].0 == key,
    decreases entries.len(),
{
    if entries.len() > 0 {
        lemma_assoc_map_dom(entries.drop_last(), key);
        if entries.last().0 == key {
            assert(entries[entries.len() - 1].0 == key);
        } else if assoc_map(entries).contains_key(key) {
            let i = choose|i: int| 0 <= i < entries.drop_last().len()
                && entries.drop_last()[i].0 == key;
            assert(entries[i].0 == key);
        } else if exists|i: int| 0 <= i < entries.len() && entries[i].0 == key {
            let i = choose|i: int| 0 <= i < entries.len() && entries[i].0 == key;
            assert(entries.drop_last()[i].0 == key);
        }
    }
}

proof fn lemma_assoc_map_at<V>(entries: Seq<(Seq<char>, V)>, i: int)
    requires
        unique_keys(entries),
        0 <= i < entries.len(),
    ensures
        assoc_map(entries).contains_key(entries[i].0),
        assoc_map(entries)[entries[i].0] == entries[i].1,
    decreases entries.len(),
{
    if i < entries.len() - 1 {
        lemma_assoc_map_at(entries.drop_last(), i);
        assert(entries.drop_last()[i] == entries[i]);
        assert(entries.last().0 != entries[i].0);
    }
}

proof fn lemma_assoc_map_push<V>(entries: Seq<(Seq<char>, V)>, key: Seq<char>, value: V)
    ensures
        assoc_map(entries.push((key, value))) == assoc_map(entries).insert(key, value),
{
    assert(entries.push((key, value)).drop_last() =~= entries);
    assert(entries.push((key, value)).last() == (key, value));
}

proof fn lemma_assoc_map_remove<V>(entries: Seq<(Seq<char>, V)>, i: int)
    requires
        unique_keys(entries),
        0 <= i < entries.len(),
    ensures
        assoc_map(entries.remove(i)) =~= assoc_map(entries).remove(entries[i].0),
    decreases entries.len(),
{
    lemma_assoc_map_dom(entries.drop_last(), entries.last().0);
    if i == entries.len() - 1 {
        assert(entries.remove(i) =~= entries.drop_last());
        assert(!assoc_map(entries.drop_last()).contains_key(entries.last().0));
    } else {
        let dl = entries.drop_last();
        lemma_assoc_map_remove(dl, i);
        assert(entries.remove(i).drop_last() =~= dl.remove(i));
        assert(entries.remove(i).last() == entries.last());
        assert(entries[i].0 != entries.last().0);
        lemma_assoc_map_dom(dl, entries[i].0);
        assert(dl[i].0 == entries[i].0);
    }
}

/// The accumulated buffer for `tag`: the stored text, or empty if none.
pub open spec fn history_text(m: Map<Seq<char>, Seq<char>>, tag: Seq<char>) -> Seq<char> {
    if m.contains_key(tag) {
        m[tag]
    } else {
        Seq::empty()
    }
}

/// The history map after one append of `text` under `tag`.
pub open spec fn history_appended(
    m: Map<Seq<char>, Seq<char>>,
    tag: Seq<char>,
    text: Seq<char>,
) -> Map<Seq<char>, Seq<char>> {
    m.insert(tag, history_text(m, tag) + text)
}

/// The history map after a whole sequence of appends under `tag`.
pub open spec fn history_after_appends(
    m: Map<Seq<char>, Seq<char>>,
    tag: Seq<char>,
    texts: Seq<Seq<char>>,
) -> Map<Seq<char>, Seq<char>>
    decreases texts.len(),
{
    if texts.len() == 0 {
        m
    } else {
        history_after_appends(history_appended(m, tag, texts[0]), tag, texts.drop_first())
    }
}

/// The concatenation of a sequence of texts, in order.
pub open spec fn concat_texts(texts: Seq<Seq<char>>) -> Seq<char>
    decreases texts.len(),
{
    if texts.len() == 0 {
        Seq::empty()
    } else {
        texts[0] + concat_texts(texts.drop_first())
    }
}

/// Law: after any number of appends under one tag, the accumulated buffer
/// for that tag is the old buffer followed by the appended texts in call
/// order, and no other tag's buffer changes.
pub proof fn lemma_appends_accumulate(
    m: Map<Seq<char>, Seq<char>>,
    tag: Seq<char>,
    texts: Seq<Seq<char>>,
)
    ensures
        history_text(history_after_appends(m, tag, texts), tag)
            == history_text(m, tag) + concat_texts(texts),
        forall|other: Seq<char>| other != tag
            ==> history_text(history_after_appends(m, tag, texts), other)
                == history_text(m, other),
    decreases texts.len(),
{
    if texts.len() == 0 {
        assert(history_text(m, tag) + concat_texts(texts) =~= history_text(m, tag));
    } else {
        let m1 = history_appended(m, tag, texts[0]);
        lemma_appends_accumulate(m1, tag, texts.drop_first());
        assert(history_text(m1, tag) + concat_texts(texts.drop_first())
            =~= history_text(m, tag) + concat_texts(texts));
        assert forall|other: Seq<char>| other != tag implies
            history_text(history_after_appends(m, tag, texts), other)
                == history_text(m, other) by {
            assert(history_text(history_after_appends(m1, tag, texts.drop_first()), other)
                == history_text(m1, other));
        };
    }
}

/// Law: a tag is a registered task right after it is registered, and is no
/// registered task right after it is unregistered, whatever was registered
/// before; unregistering again changes nothing.
pub proof fn lemma_register_then_unregister<H>(m: Map<Seq<char>, H>, tag: Seq<char>, handle: H)
    ensures
        m.insert(tag, handle).contains_key(tag),
        !m.remove(tag).contains_key(tag),
        m.remove(tag).remove(tag) == m.remove(tag),
{
    assert(m.remove(tag).remove(tag) =~= m.remove(tag));
}

/// Registry of running tasks and store of their output, keyed by tag.
pub struct DownloadManager<H> {
    history: Vec<(String, String)>,
    active: Vec<(String, H)>,
}

impl<H> DownloadManager<H> {
    /// The per-tag output buffers.
    pub closed spec fn history_map(&self) -> Map<Seq<char>, Seq<char>> {
        assoc_map(Seq::new(self.history@.len(), |i: int| (self.history@[i].0@, self.history@[i].1@)))
    }

    /// The running task handles by tag.
    pub closed spec fn task_map(&self) -> Map<Seq<char>, H> {
        assoc_map(Seq::new(self.active@.len(), |i: int| (self.active@[i].0@, self.active@[i].1)))
    }

    /// Internal buffers hold each tag at most once.
    pub closed spec fn wf(&self) -> bool {
        unique_keys(Seq::new(self.history@.len(), |i: int| (self.history@[i].0@, self.history@[i].1@)))
            && unique_keys(Seq::new(self.active@.len(), |i: int| (self.active@[i].0@, self.active@[i].1)))
    }

    pub fn new() -> (r: Self)
        ensures
            r.wf(),
            r.history_map() == Map::<Seq<char>, Seq<char>>::empty(),
            r.task_map() == Map::<Seq<char>, H>::empty(),
    {
        let r = DownloadManager { history: Vec::new(), active: Vec::new() };
        proof {
            assert(Seq::new(r.history@.len(), |i: int| (r.history@[i].0@, r.history@[i].1@))
                =~= Seq::empty());
            assert(Seq::new(r.active@.len(), |i: int| (r.active@[i].0@, r.active@[i].1))
                =~= Seq::empty());
        }
        r
    }

    /// Stores `handle` under `tag`, replacing any prior entry for the tag.
    pub fn register_task(&mut self, tag: &str, handle: H)
        requires
            old(self).wf(),
        ensures
            final(self).wf(),
            final(self).task_map() == old(self).task_map().insert(tag@, handle),
            final(self).history_map() == old(self).history_map(),
    {
        let key = String::from_str(tag);
        let found = find_index(&self.active, &key);
        let ghost entries0 = Seq::new(self.active@.len(), |i: int| (self.active@[i].0@, self.active@[i].1));
        match found {
            Some(i) => {
                proof {
                    lemma_assoc_map_remove(entries0, i as int);
                }
                let _ = self.active.remove(i);
                proof {
                    assert(Seq::new(self.active@.len(), |j: int| (self.active@[j].0@, self.active@[j].1))
                        =~= entries0.remove(i as int));
                }
            },
            None => {},
        }
        let ghost entries1 = Seq::new(self.active@.len(), |i: int| (self.active@[i].0@, self.active@[i].1));
        self.active.push((key, handle));
        proof {
            assert(Seq::new(self.active@.len(), |j: int| (self.active@[j].0@, self.active@[j].1))
                =~= entries1.push((tag@, handle)));
            lemma_assoc_map_push(entries1, tag@, handle);
            if found is Some {
                assert(self.task_map() =~= old(self).task_map().insert(tag@, handle));
            } else {
                lemma_assoc_map_dom(entries0, tag@);
            }
            assert(Seq::new(self.history@.len(), |i: int| (self.history@[i].0@, self.history@[i].1@))
                =~= Seq::new(old(self).history@.len(), |i: int| (old(self).history@[i].0@, old(self).history@[i].1@)));
        }
    }

    /// Removes the entry for `tag`; does nothing if there is none.
    pub fn unregister_task(&mut self, tag: &str)
        requires
            old(self).wf(),
        ensures
            final(self).wf(),
            final(self).task_map() == old(self).task_map().remove(tag@),
            final(self).history_map() == old(self).history_map(),
    {
        let key = String::from_str(tag);
        let found = find_index(&self.active, &key);
        let ghost entries0 = Seq::new(self.active@.len(), |i: int| (self.active@[i].0@, self.active@[i].1));
        match found {
            Some(i) => {
                proof {
                    lemma_assoc_map_remove(entries0, i as int);
                }
                let _ = self.active.remove(i);
                proof {
                    assert(Seq::new(self.active@.len(), |j: int| (self.active@[j].0@, self.active@[j].1))
                        =~= entries0.remove(i as int));
                }
            },
            None => {
                proof {
                    lemma_assoc_map_dom(entries0, tag@);
                    assert(self.task_map() =~= old(self).task_map().remove(tag@));
                }
            },
        }
        proof {
            assert(Seq::new(self.history@.len(), |i: int| (self.history@[i].0@, self.history@[i].1@))
                =~= Seq::new(old(self).history@.len(), |i: int| (old(self).history@[i].0@, old(self).history@[i].1@)));
        }
    }

    /// The handle registered under `tag`, if any.  Cancellation goes through
    /// this: the caller signals the handle; the supervising loop notices and
    /// unregisters by itself, so the entry stays.
    pub fn cancel_task(&self, tag: &str) -> (r: Option<&H>)
        requires
            self.wf(),
        ensures
            match r {
                Some(h) => self.task_map().contains_key(tag@) && *h == self.task_map()[tag@],
                None => !self.task_map().contains_key(tag@),
            },
    {
        let key = String::from_str(tag);
        let found = find_index(&self.active, &key);
        let ghost entries = Seq::new(self.active@.len(), |i: int| (self.active@[i].0@, self.active@[i].1));
        match found {
            Some(i) => {
                proof {
                    lemma_assoc_map_at(entries, i as int);
                }
                Some(&self.active[i].1)
            },
            None => {
                proof {
                    lemma_assoc_map_dom(entries, tag@);
                }
                None
            },
        }
    }

    /// Whether a task is registered under `tag`.
    pub fn has_task(&self, tag: &str) -> (r: bool)
        requires
            self.wf(),
        ensures
            r == self.task_map().contains_key(tag@),
    {
        let key = String::from_str(tag);
        let found = find_index(&self.active, &key);
        let ghost entries = Seq::new(self.active@.len(), |i: int| (self.active@[i].0@, self.active@[i].1));
        proof {
            lemma_assoc_map_dom(entries, tag@);
        }
        match found {
            Some(i) => {
                proof {
                    assert(entries[i as int].0 == tag@);
                }
                true
            },
            None => false,
        }
    }

    /// Concatenates `output` onto the buffer for `tag`, creating it if absent.
    pub fn append_output(&mut self, tag: &str, output: &str)
        requires
            old(self).wf(),
        ensures
            final(self).wf(),
            final(self).history_map() == history_appended(old(self).history_map(), tag@, output@),
            final(self).task_map() == old(self).task_map(),
    {
        let key = String::from_str(tag);
        let found = find_index(&self.history, &key);
        let ghost entries0 = Seq::new(self.history@.len(), |i: int| (self.history@[i].0@, self.history@[i].1@));
        let mut buf: String;
        match found {
            Some(i) => {
                proof {
                    lemma_assoc_map_at(entries0, i as int);
                    lemma_assoc_map_remove(entries0, i as int);
                }
                let entry = self.history.remove(i);
                buf = entry.0;
                let mut text = entry.1;
                text.append(output);
                proof {
                    assert(Seq::new(self.history@.len(), |j: int| (self.history@[j].0@, self.history@[j].1@))
                        =~= entries0.remove(i as int));
                }
                let ghost entries1 = Seq::new(self.history@.len(), |j: int| (self.history@[j].0@, self.history@[j].1@));
                self.history.push((buf, text));
                proof {
                    assert(Seq::new(self.history@.len(), |j: int| (self.history@[j].0@, self.history@[j].1@))
                        =~= entries1.push((tag@, old(self).history_map()[tag@] + output@)));
                    lemma_assoc_map_push(entries1, tag@, old(self).history_map()[tag@] + output@);
                    assert(self.history_map()
                        =~= history_appended(old(self).history_map(), tag@, output@));
                }
            },
            None => {
                proof {
                    lemma_assoc_map_dom(entries0, tag@);
                }
                buf = key;
                let mut text = String::new();
                text.append(output);
                self.history.push((buf, text));
                proof {
                    assert(Seq::new(self.history@.len(), |j: int| (self.history@[j].0@, self.history@[j].1@))
                        =~= entries0.push((tag@, output@)));
                    lemma_assoc_map_push(entries0, tag@, output@);
                    assert(history_text(old(self).history_map(), tag@) + output@ =~= output@);
                }
            },
        }
        proof {
            assert(Seq::new(self.active@.len(), |i: int| (self.active@[i].0@, self.active@[i].1))
                =~= Seq::new(old(self).active@.len(), |i: int| (old(self).active@[i].0@, old(self).active@[i].1)));
        }
    }

    /// The full accumulated buffer for `tag`, or empty if none exists.
    pub fn get_output(&self, tag: &str) -> (r: String)
        requires
            self.wf(),
        ensures
            r@ == history_text(self.history_map(), tag@),
    {
        let key = String::from_str(tag);
        let found = find_index(&self.history, &key);
        let ghost entries = Seq::new(self.history@.len(), |i: int| (self.history@[i].0@, self.history@[i].1@));
        match found {
            Some(i) => {
                proof {
                    lemma_assoc_map_at(entries, i as int);
                }
                self.history[i].1.clone()
            },
            None => {
                proof {
                    lemma_assoc_map_dom(entries, tag@);
                }
                String::new()
            },
        }
    }
}

/// Index of the entry whose key equals `key`, if any.
fn find_index<H>(entries: &Vec<(String, H)>, key: &String) -> (r: Option<usize>)
    ensures
        match r {
            Some(i) => i < entries@.len() && entries@[i as int].0@ == key@,
            None => forall|i: int| 0 <= i < entries@.len() ==> entries@[i].0@ != key@,
        },
{
    let mut i: usize = 0;
    while i < entries.len()
        invariant
            i <= entries@.len(),
            forall|j: int| 0 <= j < i ==> entries@[j].0@ != key@,
        decreases entries@.len() - i,
    {
        let e = &entries[i];
        if e.0 == *key {
            return Some(i);
        }
        i = i + 1;
    }
    None
}

} // verus!
