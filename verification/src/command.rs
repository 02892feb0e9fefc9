//! External commands that the tools run, described as plain values: the
//! library decides which command, with which arguments and where; the
//! caller runs it.
use vstd::prelude::*;

verus! {

/// A program to run, its arguments, and the directory to run it in.
pub struct CommandSpec {
    pub program: String,
    pub args: Vec<String>,
    pub dir: Option<String>,
}

/// The texts of a list of strings.
pub open spec fn texts(v: Seq<String>) -> Seq<Seq<char>> {
    v.map_values(|s: String| s@)
}

impl CommandSpec {
    /// The program, arguments and directory as texts.
    pub open spec fn program_text(&self) -> Seq<char> {
        self.program@
    }

    pub open spec fn arg_texts(&self) -> Seq<Seq<char>> {
        texts(self.args@)
    }

    pub open spec fn dir_text(&self) -> Option<Seq<char>> {
        self.dir.deep_view()
    }
}

/// A vector holding the given literal texts in order.
pub fn owned_texts(words: &[&str]) -> (v: Vec<String>)
    ensures
        texts(v@) == words@.map_values(|w: &str| w@),
{
    let mut v: Vec<String> = Vec::new();
    let mut i: usize = 0;
    while i < words.len()
        invariant
            i <= words@.len(),
            v@.len() == i,
            texts(v@) == words@.take(i as int).map_values(|w: &str| w@),
        decreases words@.len() - i,
    {
        let ghost before = v@;
        let w: &str = words[i];
        let owned = w.to_owned();
        assert(owned@ == words@[i as int]@);
        v.push(owned);
        assert(words@.take(i + 1) == words@.take(i as int).push(words@[i as int]));
        assert forall|k: int| 0 <= k < i + 1 implies #[trigger] texts(v@)[k] == words@.take(i + 1).map_values(
            |w: &str| w@,
        )[k] by {
            if k < i {
                assert(v@[k] == before[k]);
                assert(texts(before)[k] == words@.take(i as int).map_values(|w: &str| w@)[k]);
            }
        }
        assert(texts(v@) =~= words@.take(i + 1).map_values(|w: &str| w@));
        i = i + 1;
    }
    assert(words@.take(words@.len() as int) == words@);
    v
}

} // verus!
