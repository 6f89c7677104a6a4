//! The selection filter: resolves the user's include/exclude lists against
//! the configuration.  All matching is case-insensitive; exclusion takes
//! precedence over inclusion, and an empty selection means "run all".

use vstd::prelude::*;

use crate::yaml_config::ToolEntry;
use crate::yaml_config::ToolEntryV;

verus! {

/// The lowercase image of a string, as the platform's case folding
/// produces it.
pub uninterp spec fn lower_of(s: Seq<char>) -> Seq<char>;

/// Relies on str::to_lowercase: the lowercase image of a string depends on
/// its characters alone.
#[verifier::external_body]
fn to_lower(s: &str) -> (r: String)
    ensures
        r@ == lower_of(s@),
{
    s.to_lowercase()
}

/// Mathematical image of a [`SelectionFilter`]: three lowercased name
/// lists.
pub struct FilterV {
    pub selected: Seq<Seq<char>>,
    pub excluded: Seq<Seq<char>>,
    pub ignored_tools: Seq<Seq<char>>,
}

/// Whether an ecosystem whose lowercased name is `name_lower` is processed:
/// never when excluded; otherwise always when the selection is empty, else
/// exactly when selected.
pub open spec fn ecosystem_included_v(name_lower: Seq<char>, f: FilterV) -> bool {
    &&& !f.excluded.contains(name_lower)
    &&& (f.selected.len() == 0 || f.selected.contains(name_lower))
}

/// Whether a tool is processed: never when its `skip` flag is set, never
/// when its lowercased name is ignored, otherwise always.
pub open spec fn tool_included_v(t: ToolEntryV, f: FilterV) -> bool {
    !t.skip && !f.ignored_tools.contains(lower_of(t.name))
}

/// Exclusion over inclusion: an ecosystem name standing in both the list
/// of ecosystems to run and the list of ecosystems to exclude is excluded.
pub proof fn lemma_exclusion_over_inclusion(name_lower: Seq<char>, f: FilterV)
    requires
        f.excluded.contains(name_lower),
    ensures
        !ecosystem_included_v(name_lower, f),
{
}

/// The user's selection lists, lowercased once on construction.
pub struct SelectionFilter {
    pub selected: Vec<String>,
    pub excluded: Vec<String>,
    pub ignored_tools: Vec<String>,
}

impl View for SelectionFilter {
    type V = FilterV;

    open spec fn view(&self) -> FilterV {
        FilterV {
            selected: self.selected.deep_view(),
            excluded: self.excluded.deep_view(),
            ignored_tools: self.ignored_tools.deep_view(),
        }
    }
}

fn contains_string(xs: &Vec<String>, x: &String) -> (r: bool)
    ensures
        r == xs.deep_view().contains(x@),
{
    let mut i: usize = 0;
    while i < xs.len()
        invariant
            i <= xs.len(),
            forall|j: int| 0 <= j < i ==> xs.deep_view()[j] != x@,
        decreases xs.len() - i,
    {
        if xs[i].eq(x) {
            assert(xs.deep_view()[i as int] == x@);
            return true;
        }
        i += 1;
    }
    assert(!xs.deep_view().contains(x@));
    false
}

fn lower_all(xs: &Vec<String>) -> (r: Vec<String>)
    ensures
        r.deep_view() == xs.deep_view().map_values(|s: Seq<char>| lower_of(s)),
{
    let mut r: Vec<String> = Vec::new();
    let mut i: usize = 0;
    while i < xs.len()
        invariant
            i <= xs.len(),
            r.deep_view().len() == i as int,
            forall|j: int| 0 <= j < i ==> r.deep_view()[j] == lower_of(xs.deep_view()[j]),
        decreases xs.len() - i,
    {
        let l = to_lower(xs[i].as_str());
        let ghost lv = l@;
        let ghost prev = r.deep_view();
        r.push(l);
        proof {
            assert forall|j: int| 0 <= j < i + 1 implies r.deep_view()[j] == lower_of(
                xs.deep_view()[j],
            ) by {
                if j < i as int {
                    assert(r.deep_view()[j] == prev[j]);
                } else {
                    assert(r.deep_view()[j] == lv);
                }
            }
        }
        i += 1;
    }
    proof {
        assert(r.deep_view() =~= xs.deep_view().map_values(|s: Seq<char>| lower_of(s)));
    }
    r
}

impl SelectionFilter {
    /// Builds the filter from the raw user lists, lowercasing each entry.
    pub fn new(
        selected_ecosystems: &Vec<String>,
        ignored_ecosystems: &Vec<String>,
        ignored_tools: &Vec<String>,
    ) -> (r: Self)
        ensures
            r@.selected == selected_ecosystems.deep_view().map_values(
                |s: Seq<char>| lower_of(s),
            ),
            r@.excluded == ignored_ecosystems.deep_view().map_values(
                |s: Seq<char>| lower_of(s),
            ),
            r@.ignored_tools == ignored_tools.deep_view().map_values(
                |s: Seq<char>| lower_of(s),
            ),
    {
        SelectionFilter {
            selected: lower_all(selected_ecosystems),
            excluded: lower_all(ignored_ecosystems),
            ignored_tools: lower_all(ignored_tools),
        }
    }

    /// Whether the named ecosystem is processed under this filter.
    pub fn ecosystem_included(&self, name: &String) -> (r: bool)
        ensures
            r == ecosystem_included_v(lower_of(name@), self@),
    {
        let lower = to_lower(name.as_str());
        if contains_string(&self.excluded, &lower) {
            false
        } else if self.selected.len() == 0 {
            true
        } else {
            contains_string(&self.selected, &lower)
        }
    }

    /// Whether the named ecosystem stands on the exclusion list.
    pub fn is_excluded(&self, name: &String) -> (r: bool)
        ensures
            r == self@.excluded.contains(lower_of(name@)),
    {
        let lower = to_lower(name.as_str());
        contains_string(&self.excluded, &lower)
    }

    /// Whether the given tool is processed under this filter.
    pub fn tool_included(&self, tool: &ToolEntry) -> (r: bool)
        ensures
            r == tool_included_v(tool@, self@),
    {
        if tool.skip {
            false
        } else {
            let lower = to_lower(tool.name.as_str());
            !contains_string(&self.ignored_tools, &lower)
        }
    }
}

} // verus!
