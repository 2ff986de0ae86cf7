//! The tags that the user gives to projects.
use vstd::prelude::*;
use crate::keyed::KeyedList;
use crate::tags::{TagSet, texts, strictly_sorted};
use crate::config::{ConfigDirLookup, GlobalConfig, under_config_dir, context_path_in};
use crate::error::ToadResult;
use crate::paths::{join_path, path_join};

verus! {

/// The tags of project `p` in a tag model; none if the project has no entry.
pub open spec fn tags_of(m: Map<Seq<char>, Set<Seq<char>>>, p: Seq<char>) -> Set<Seq<char>> {
    if m.contains_key(p) {
        m[p]
    } else {
        Set::empty()
    }
}

/// The tag model after tag `t` is given to project `p`.
pub open spec fn after_add_tag(m: Map<Seq<char>, Set<Seq<char>>>, p: Seq<char>, t: Seq<char>) -> Map<
    Seq<char>,
    Set<Seq<char>>,
> {
    m.insert(p, tags_of(m, p).insert(t))
}

/// The tag model after tag `t` is taken from project `p`; a project without
/// an entry gets none.
pub open spec fn after_remove_tag(m: Map<Seq<char>, Set<Seq<char>>>, p: Seq<char>, t: Seq<char>) -> Map<
    Seq<char>,
    Set<Seq<char>>,
> {
    if m.contains_key(p) {
        m.insert(p, m[p].remove(t))
    } else {
        m
    }
}

/// Tags per project; the model maps each project name to its set of tags.
#[derive(Debug, Clone)]
pub struct TagRegistry {
    pub projects: KeyedList<TagSet>,
}

impl View for TagRegistry {
    type V = Map<Seq<char>, Set<Seq<char>>>;

    open spec fn view(&self) -> Map<Seq<char>, Set<Seq<char>>> {
        self.projects@.map_values(|s: TagSet| s@)
    }
}

impl Default for TagRegistry {
    fn default() -> (r: Self)
        ensures
            r@ == Map::<Seq<char>, Set<Seq<char>>>::empty(),
    {
        let r = TagRegistry { projects: KeyedList::new() };
        assert(r@ =~= Map::<Seq<char>, Set<Seq<char>>>::empty());
        r
    }
}

impl TagRegistry {
    /// Gives tag `tag` to project `project`.
    pub fn add_tag(&mut self, project: &str, tag: &str)
        ensures
            final(self)@ == after_add_tag(old(self)@, project@, tag@),
    {
        let ghost m = self@;
        let mut set = match self.projects.remove(project) {
            Some(s) => s,
            None => TagSet::new(),
        };
        assert(set@ == tags_of(m, project@));
        set.insert(tag.to_owned());
        self.projects.insert(project.to_owned(), set);
        assert(self@ =~= after_add_tag(m, project@, tag@));
    }

    /// Takes tag `tag` from project `project`, if the project has an entry.
    pub fn remove_tag(&mut self, project: &str, tag: &str)
        ensures
            final(self)@ == after_remove_tag(old(self)@, project@, tag@),
    {
        let ghost m = self@;
        match self.projects.remove(project) {
            Some(mut set) => {
                set.remove(tag);
                self.projects.insert(project.to_owned(), set);
                assert(self@ =~= after_remove_tag(m, project@, tag@));
            },
            None => {
                assert(self@ =~= m);
            },
        }
    }

    /// The tags of project `project` in ascending order; none for a project
    /// without an entry.
    pub fn get_tags(&self, project: &str) -> (r: Vec<String>)
        ensures
            strictly_sorted(texts(r@)),
            texts(r@).to_set() == tags_of(self@, project@),
    {
        match self.projects.get(project) {
            Some(set) => set.sorted(),
            None => {
                let r: Vec<String> = Vec::new();
                assert(texts(r@).to_set() =~= Set::<Seq<char>>::empty());
                r
            },
        }
    }
}

/// The path of the project registry: in the directory of context
/// `context_name` if one is given, else in the configuration directory.
pub fn project_registry_path(context_name: Option<&str>, lookup: &ConfigDirLookup) -> (r: ToadResult<String>)
    ensures
        match context_name {
            Some(name) => under_config_dir(
                *lookup,
                r,
                |d: Seq<char>| path_join(context_path_in(d, name@), "registry.json"@),
            ),
            None => under_config_dir(*lookup, r, |d: Seq<char>| path_join(d, "registry.json"@)),
        },
{
    match context_name {
        Some(name) => match GlobalConfig::context_dir(name, lookup) {
            Ok(d) => Ok(join_path(d.as_str(), "registry.json")),
            Err(e) => Err(e),
        },
        None => match GlobalConfig::config_dir(lookup) {
            Ok(d) => Ok(join_path(d.as_str(), "registry.json")),
            Err(e) => Err(e),
        },
    }
}

/// A tag given to a project is among its tags afterwards, beside the tags it
/// had.
pub proof fn law_added_tag_is_listed(m: Map<Seq<char>, Set<Seq<char>>>, p: Seq<char>, t: Seq<char>)
    ensures
        tags_of(after_add_tag(m, p, t), p) == tags_of(m, p).insert(t),
        tags_of(after_add_tag(m, p, t), p).contains(t),
{
}

/// A tag taken from a project is no longer among its tags, and the others stay.
pub proof fn law_removed_tag_is_gone(m: Map<Seq<char>, Set<Seq<char>>>, p: Seq<char>, t: Seq<char>)
    ensures
        tags_of(after_remove_tag(m, p, t), p) == tags_of(m, p).remove(t),
        !tags_of(after_remove_tag(m, p, t), p).contains(t),
{
    if !m.contains_key(p) {
        assert(Set::<Seq<char>>::empty().remove(t) =~= Set::<Seq<char>>::empty());
    }
}

/// Giving or taking a tag leaves the tags of every other project as they were.
pub proof fn law_other_projects_untouched(
    m: Map<Seq<char>, Set<Seq<char>>>,
    p: Seq<char>,
    q: Seq<char>,
    t: Seq<char>,
)
    requires
        p != q,
    ensures
        tags_of(after_add_tag(m, p, t), q) == tags_of(m, q),
        tags_of(after_remove_tag(m, p, t), q) == tags_of(m, q),
{
}

/// Taking a tag that was just given, and that the project did not have
/// before, gives the project back the tags it had.
pub proof fn law_remove_undoes_add(m: Map<Seq<char>, Set<Seq<char>>>, p: Seq<char>, t: Seq<char>)
    requires
        !tags_of(m, p).contains(t),
    ensures
        tags_of(after_remove_tag(after_add_tag(m, p, t), p, t), p) == tags_of(m, p),
{
    assert(tags_of(m, p).insert(t).remove(t) =~= tags_of(m, p));
}

/// Giving the same tag twice is the same as giving it once.
pub proof fn law_add_tag_idempotent(m: Map<Seq<char>, Set<Seq<char>>>, p: Seq<char>, t: Seq<char>)
    ensures
        after_add_tag(after_add_tag(m, p, t), p, t) == after_add_tag(m, p, t),
{
    assert(tags_of(m, p).insert(t).insert(t) =~= tags_of(m, p).insert(t));
    assert(after_add_tag(after_add_tag(m, p, t), p, t) =~= after_add_tag(m, p, t));
}

/// Two listings of the same set of tags, both in ascending order, are the
/// same listing: `get_tags` is determined by the set.
pub proof fn law_listing_is_determined(a: Seq<Seq<char>>, b: Seq<Seq<char>>)
    requires
        strictly_sorted(a),
        strictly_sorted(b),
        a.to_set() == b.to_set(),
    ensures
        a == b,
{
    crate::tags::lemma_sorted_listing_unique(a, b);
}

} // verus!
