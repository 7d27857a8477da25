//! Command descriptions and the table of routes a tool declares.
use vstd::prelude::*;

verus! {

/// What a command declares of itself: an optional name, as it is written
/// on the command line, and its usage text.
pub struct CommandSpec {
    pub name: Option<String>,
    pub usage: String,
}

/// The model of a [`CommandSpec`].
pub struct CommandModel {
    pub name: Option<Seq<char>>,
    pub usage: Seq<char>,
}

impl View for CommandSpec {
    type V = CommandModel;

    open spec fn view(&self) -> CommandModel {
        CommandModel {
            name: match self.name {
                Some(n) => Some(n@),
                None => None,
            },
            usage: self.usage@,
        }
    }
}

impl CommandSpec {
    pub fn new(name: Option<&str>, usage: &str) -> (r: CommandSpec)
        ensures
            r@.name == (match name {
                Some(n) => Some(n@),
                None => None::<Seq<char>>,
            }),
            r@.usage == usage@,
    {
        let name = match name {
            Some(n) => Some(n.to_string()),
            None => None,
        };
        CommandSpec { name, usage: usage.to_string() }
    }
}

/// Two distinct entries never declare the same name.
pub open spec fn names_unique(s: Seq<CommandModel>) -> bool {
    forall|i: int, j: int|
        0 <= i < s.len() && 0 <= j < s.len() && i != j && (#[trigger] s[i].name) is Some
            ==> s[i].name != (#[trigger] s[j].name)
}

/// Why a table could not be built.
#[derive(Debug, PartialEq, Eq, Structural)]
pub enum TableError {
    /// Entries `first` and `second` declare the same name.
    DuplicateName { first: usize, second: usize },
}

/// The commands of one tool, in the order in which they are listed.
///
/// An entry is selected by its position; no two entries share a name.
pub struct RouteTable {
    entries: Vec<CommandSpec>,
}

pub open spec fn models_of(v: Seq<CommandSpec>) -> Seq<CommandModel> {
    v.map_values(|e: CommandSpec| e@)
}

impl View for RouteTable {
    type V = Seq<CommandModel>;

    closed spec fn view(&self) -> Seq<CommandModel> {
        models_of(self.entries@)
    }
}

impl RouteTable {
    #[verifier::type_invariant]
    spec fn inv(&self) -> bool {
        names_unique(self@)
    }

    /// Builds a table from its entries, in order, as long as their names are
    /// unique.
    pub fn new(entries: Vec<CommandSpec>) -> (r: Result<RouteTable, TableError>)
        ensures
            r is Ok <==> names_unique(models_of(entries@)),
            r matches Ok(t) ==> t@ == models_of(entries@) && names_unique(t@),
            r matches Err(TableError::DuplicateName { first, second }) ==> {
                &&& first < second < entries@.len()
                &&& entries@[first as int]@.name is Some
                &&& entries@[first as int]@.name == entries@[second as int]@.name
            },
    {
        let ghost m = models_of(entries@);
        let n = entries.len();
        let mut j: usize = 0;
        while j < n
            invariant
                n == entries@.len(),
                m == models_of(entries@),
                j <= n,
                forall|a: int, b: int|
                    0 <= a < b < j && (#[trigger] m[a].name) is Some ==> m[a].name != (
                    #[trigger] m[b].name),
            decreases n - j,
        {
            let mut i: usize = 0;
            while i < j
                invariant
                    n == entries@.len(),
                    m == models_of(entries@),
                    i <= j < n,
                    forall|a: int| 0 <= a < i && (#[trigger] m[a].name) is Some ==> m[a].name != m[j as int].name,
                decreases j - i,
            {
                let same = match (&entries[i].name, &entries[j].name) {
                    (Some(x), Some(y)) => x.eq(y),
                    _ => false,
                };
                if same {
                    assert(m[i as int].name is Some && m[i as int].name == m[j as int].name);
                    assert(!names_unique(m));
                    return Err(TableError::DuplicateName { first: i, second: j });
                }
                i = i + 1;
            }
            j = j + 1;
        }
        proof {
            assert forall|a: int, b: int|
                0 <= a < m.len() && 0 <= b < m.len() && a != b && (#[trigger] m[a].name) is Some
                    implies m[a].name != (#[trigger] m[b].name) by {
                if a > b && m[b].name is Some {
                    assert(m[b].name != m[a].name);
                }
            }
        }
        let t = RouteTable { entries };
        Ok(t)
    }

    /// The number of entries.
    pub fn len(&self) -> (r: usize)
        ensures
            r == self@.len(),
    {
        self.entries.len()
    }

    /// The entry at position `i`.
    pub fn get(&self, i: usize) -> (r: &CommandSpec)
        requires
            i < self@.len(),
        ensures
            r@ == self@[i as int],
    {
        &self.entries[i]
    }

    /// The position of the entry named `name`, if there is one.
    pub fn find(&self, name: &str) -> (r: Option<usize>)
        ensures
            r matches Some(i) ==> i < self@.len() && self@[i as int].name == Some(name@),
            r matches Some(i) ==> forall|j: int|
                0 <= j < self@.len() && (#[trigger] self@[j]).name == Some(name@) ==> j == i,
            names_unique(self@),
            r is None <==> forall|i: int| 0 <= i < self@.len() ==> (#[trigger] self@[i]).name != Some(name@),
    {
        proof {
            use_type_invariant(self);
        }
        let key = name.to_string();
        let n = self.entries.len();
        let mut i: usize = 0;
        while i < n
            invariant
                key@ == name@,
                names_unique(self@),
                n == self@.len(),
                i <= n,
                forall|k: int| 0 <= k < i ==> (#[trigger] self@[k]).name != Some(name@),
            decreases n - i,
        {
            let hit = match &self.entries[i].name {
                Some(x) => x.eq(&key),
                None => false,
            };
            if hit {
                return Some(i);
            }
            i = i + 1;
        }
        None
    }
}

} // verus!
