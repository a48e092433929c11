//! The prompt texts the research pipeline sends to the language model,
//! keyed by prompt name.

use vstd::prelude::*;

use crate::error::AppError;
use crate::text::{push_str_chars, str_eq, string_from_chars};

verus! {

/// The prompts that must be present before the application starts.
pub fn required_prompt_names() -> (res: Vec<&'static str>)
    ensures
        res@.len() == 8,
        res@[0]@ == "planner"@,
        res@[1]@ == "search_query_writer"@,
        res@[2]@ == "reader"@,
        res@[3]@ == "synthesizer"@,
        res@[4]@ == "critic"@,
        res@[5]@ == "evaluator"@,
        res@[6]@ == "scanner_signal"@,
        res@[7]@ == "preliminary_thesis"@,
{
    let mut v: Vec<&'static str> = Vec::new();
    v.push("planner");
    v.push("search_query_writer");
    v.push("reader");
    v.push("synthesizer");
    v.push("critic");
    v.push("evaluator");
    v.push("scanner_signal");
    v.push("preliminary_thesis");
    v
}

/// Prompt texts by name.
pub struct PromptStore {
    prompts: Vec<(String, String)>,
}

impl PromptStore {
    spec fn entries_map(entries: Seq<(String, String)>) -> Map<Seq<char>, Seq<char>>
        decreases entries.len(),
    {
        if entries.len() == 0 {
            Map::empty()
        } else {
            Self::entries_map(entries.drop_last()).insert(
                entries.last().0@,
                entries.last().1@,
            )
        }
    }

    /// The stored prompt text of each name.
    pub closed spec fn view(&self) -> Map<Seq<char>, Seq<char>> {
        Self::entries_map(self.prompts@)
    }

    #[verifier::type_invariant]
    spec fn unique_names(&self) -> bool {
        forall|i: int, j: int|
            0 <= i < j < self.prompts@.len() ==> #[trigger] self.prompts@[i].0@
                != #[trigger] self.prompts@[j].0@
    }

    proof fn lemma_entries_map(entries: Seq<(String, String)>)
        requires
            forall|i: int, j: int|
                0 <= i < j < entries.len() ==> #[trigger] entries[i].0@ != #[trigger] entries[j].0@,
        ensures
            forall|k: Seq<char>|
                #![trigger Self::entries_map(entries).contains_key(k)]
                Self::entries_map(entries).contains_key(k) <==> exists|i: int|
                    0 <= i < entries.len() && #[trigger] entries[i].0@ == k,
            forall|i: int|
                #![trigger entries[i]]
                0 <= i < entries.len() ==> Self::entries_map(entries)[entries[i].0@]
                    == entries[i].1@,
        decreases entries.len(),
    {
        if entries.len() > 0 {
            let prefix = entries.drop_last();
            Self::lemma_entries_map(prefix);
            let m = Self::entries_map(entries);
            assert forall|k: Seq<char>| #[trigger] m.contains_key(k) implies exists|i: int|
                0 <= i < entries.len() && #[trigger] entries[i].0@ == k by {
                if k != entries.last().0@ {
                    assert(Self::entries_map(prefix).contains_key(k));
                    let i = choose|i: int| 0 <= i < prefix.len() && #[trigger] prefix[i].0@ == k;
                    assert(entries[i] == prefix[i]);
                } else {
                    let i = entries.len() - 1;
                    assert(entries[i].0@ == k);
                }
            }
            assert forall|k: Seq<char>|
                (exists|i: int| 0 <= i < entries.len() && #[trigger] entries[i].0@ == k)
                implies #[trigger] m.contains_key(k) by {
                let i = choose|i: int| 0 <= i < entries.len() && #[trigger] entries[i].0@ == k;
                if i < prefix.len() {
                    assert(prefix[i] == entries[i]);
                }
            }
            assert forall|i: int| #![trigger entries[i]] 0 <= i < entries.len() implies m[entries[
                i
            ].0@] == entries[i].1@ by {
                if i < prefix.len() {
                    assert(prefix[i] == entries[i]);
                    assert(entries[i].0@ != entries.last().0@);
                }
            }
        }
    }

    fn find(&self, name: &str) -> (res: Option<usize>)
        ensures
            res matches Some(i) ==> i < self.prompts@.len() && self.prompts@[i as int].0@
                == name@,
            res is None ==> forall|i: int|
                0 <= i < self.prompts@.len() ==> #[trigger] self.prompts@[i].0@ != name@,
    {
        let mut i: usize = 0;
        while i < self.prompts.len()
            invariant
                0 <= i <= self.prompts@.len(),
                forall|k: int| 0 <= k < i ==> #[trigger] self.prompts@[k].0@ != name@,
            decreases self.prompts@.len() - i,
        {
            if str_eq(self.prompts[i].0.as_str(), name) {
                return Some(i);
            }
            i = i + 1;
        }
        None
    }

    pub fn new() -> (res: Self)
        ensures
            res.view() == Map::<Seq<char>, Seq<char>>::empty(),
    {
        PromptStore { prompts: Vec::new() }
    }

    /// Stores `content` as the prompt called `name`, replacing an earlier one.
    pub fn insert(&mut self, name: String, content: String)
        ensures
            final(self).view() == old(self).view().insert(name@, content@),
    {
        proof {
            use_type_invariant(&*self);
            Self::lemma_entries_map(self.prompts@);
        }
        let ghost old_entries = self.prompts@;
        match self.find(name.as_str()) {
            Some(i) => {
                let mut entries: Vec<(String, String)> = Vec::new();
                std::mem::swap(&mut entries, &mut self.prompts);
                entries.set(i, (name, content));
                self.prompts = entries;
                proof {
                    assert forall|a: int, b: int|
                        0 <= a < b < self.prompts@.len() implies #[trigger] self.prompts@[a].0@
                        != #[trigger] self.prompts@[b].0@ by {
                        assert(old_entries[a].0@ != old_entries[b].0@);
                    }
                    Self::lemma_entries_map(self.prompts@);
                    let m = self.view();
                    let want = old(self).view().insert(self.prompts@[i as int].0@, self.prompts@[i as int].1@);
                    assert forall|k: Seq<char>| #[trigger] m.contains_key(k) <==> want.contains_key(k) by {
                        if m.contains_key(k) {
                            let j = choose|j: int| 0 <= j < self.prompts@.len() && #[trigger] self.prompts@[j].0@ == k;
                            if j != i {
                                assert(old_entries[j] == self.prompts@[j]);
                            }
                        }
                        if old(self).view().contains_key(k) {
                            let j = choose|j: int| 0 <= j < old_entries.len() && #[trigger] old_entries[j].0@ == k;
                            if j != i {
                                assert(old_entries[j] == self.prompts@[j]);
                            } else {
                                assert(self.prompts@[j].0@ == k);
                            }
                        }
                    }
                    assert forall|k: Seq<char>| #[trigger] m.contains_key(k) implies m[k] == want[k] by {
                        let j = choose|j: int| 0 <= j < self.prompts@.len() && #[trigger] self.prompts@[j].0@ == k;
                        if j != i {
                            assert(old_entries[j] == self.prompts@[j]);
                        }
                    }
                    assert(m =~= want);
                }
            },
            None => {
                let mut entries: Vec<(String, String)> = Vec::new();
                std::mem::swap(&mut entries, &mut self.prompts);
                entries.push((name, content));
                self.prompts = entries;
                proof {
                    assert(self.prompts@.drop_last() =~= old_entries);
                    assert forall|a: int, b: int|
                        0 <= a < b < self.prompts@.len() implies #[trigger] self.prompts@[a].0@
                        != #[trigger] self.prompts@[b].0@ by {
                        if b < old_entries.len() {
                            assert(old_entries[a].0@ != old_entries[b].0@);
                        } else {
                            assert(self.prompts@[a] == old_entries[a]);
                        }
                    }
                }
            },
        }
    }

    /// The prompt called `name`; an internal error `missing prompt: <name>`
    /// when there is none.
    pub fn get(&self, name: &str) -> (res: Result<&str, AppError>)
        ensures
            self.view().contains_key(name@) ==> (res matches Ok(p) && p@ == self.view()[name@]),
            !self.view().contains_key(name@) ==> (res matches Err(AppError::Internal(m)) && m@
                == "missing prompt: "@ + name@),
    {
        proof {
            use_type_invariant(self);
            Self::lemma_entries_map(self.prompts@);
        }
        match self.find(name) {
            Some(i) => Ok(self.prompts[i].1.as_str()),
            None => {
                let mut out: Vec<char> = Vec::new();
                push_str_chars(&mut out, "missing prompt: ");
                push_str_chars(&mut out, name);
                Err(AppError::Internal(string_from_chars(&out)))
            },
        }
    }
}

/// A prompt reads back as the text last stored under its name, and storing
/// one prompt leaves every other prompt as it was.
pub proof fn law_prompt_read_after_write(
    m: Map<Seq<char>, Seq<char>>,
    name: Seq<char>,
    content: Seq<char>,
    other: Seq<char>,
)
    ensures
        m.insert(name, content).contains_key(name),
        m.insert(name, content)[name] == content,
        other != name ==> (m.insert(name, content).contains_key(other) == m.contains_key(other)),
        other != name && m.contains_key(other) ==> m.insert(name, content)[other] == m[other],
{
}

} // verus!
