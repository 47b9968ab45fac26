//! A navigation menu as a sidebar list. Headings introduce rows: `sections` is parallel to the
//! rows, and each heading opens a group at its own row. Everything outside the list speaks of flat
//! rows; the grouping is private to it.

use crate::menu::MenuItem;
use crate::types::{Color, NodeId};
use vstd::prelude::*;

verus! {

/// The rows of a menu with their decorations, parallel by row.
pub struct NavMenu {
    pub node: NodeId,
    pub items: Vec<String>,
    pub icons: Vec<Option<String>>,
    pub tints: Vec<Option<Color>>,
    pub menus: Vec<Vec<MenuItem>>,
    pub badge_icons: Vec<Option<String>>,
    pub badge_tints: Vec<Option<Color>>,
    pub sections: Vec<Option<String>>,
    /// Whether the layout in place draws headings.
    pub headers: bool,
}

/// What a menu is given.
pub struct MenuContent {
    pub items: Vec<String>,
    pub icons: Vec<Option<String>>,
    pub tints: Vec<Option<Color>>,
    pub menus: Vec<Vec<MenuItem>>,
    pub badge_icons: Vec<Option<String>>,
    pub badge_tints: Vec<Option<Color>>,
    pub sections: Vec<Option<String>>,
}

/// A group of rows: its first row, and how many it holds.
#[derive(Clone, Copy, PartialEq, Eq, Structural, Debug)]
pub struct Group {
    pub first: usize,
    pub len: usize,
}

/// Whether row `row` has a heading.
pub open spec fn headed(sections: Seq<Option<String>>, row: int) -> bool {
    0 <= row < sections.len() && sections[row] is Some
}

/// Some row has a heading.
pub open spec fn any_headed(sections: Seq<Option<String>>) -> bool {
    exists|i: int| headed(sections, i)
}

/// Whether a group starts at `row`: at every heading, and at the first row.
pub open spec fn starts(sections: Seq<Option<String>>, row: int) -> bool {
    row == 0 || headed(sections, row)
}

/// The groups of the first `rows` rows.
pub open spec fn groups_of(sections: Seq<Option<String>>, rows: int) -> Seq<Group>
    decreases rows,
{
    if rows <= 0 {
        Seq::empty()
    } else {
        let before = groups_of(sections, rows - 1);
        if starts(sections, rows - 1) {
            before.push(Group { first: (rows - 1) as usize, len: 1 })
        } else {
            before.update(
                before.len() - 1,
                Group { first: before.last().first, len: (before.last().len + 1) as usize },
            )
        }
    }
}

/// The heading of a group: that of its first row.
pub open spec fn heading_of(sections: Seq<Option<String>>, group: Group) -> Option<String> {
    if group.first < sections.len() {
        sections[group.first as int]
    } else {
        None
    }
}

/// The flat row at `(section, item)`.
pub open spec fn row_at(groups: Seq<Group>, section: int, item: int) -> Option<int> {
    if 0 <= section < groups.len() && 0 <= item < groups[section].len {
        Some(groups[section].first + item)
    } else {
        None
    }
}

/// The path of a flat row, searched from group `from`.
pub open spec fn path_from(groups: Seq<Group>, row: int, from: int) -> Option<(int, int)>
    decreases groups.len() - from,
{
    if from < 0 || from >= groups.len() {
        None
    } else if groups[from].first <= row < groups[from].first + groups[from].len {
        Some((from, row - groups[from].first))
    } else {
        path_from(groups, row, from + 1)
    }
}

/// Groups tile the first `rows` rows: the first starts at row zero, each starts where the one
/// before ends, none is empty, and the last ends at `rows`.
pub open spec fn tiles(groups: Seq<Group>, rows: int) -> bool {
    &&& rows == 0 ==> groups.len() == 0
    &&& rows > 0 ==> groups.len() > 0 && groups[0].first == 0 && groups.last().first
        + groups.last().len == rows
    &&& forall|i: int| 0 <= i < groups.len() ==> (#[trigger] groups[i]).len > 0
    &&& forall|i: int, j: int|
        0 <= i < j < groups.len() ==> (#[trigger] groups[i]).first + groups[i].len <= (
        #[trigger] groups[j]).first
    &&& forall|i: int|
        0 <= i < groups.len() - 1 ==> (#[trigger] groups[i]).first + groups[i].len == groups[i
            + 1].first
}

proof fn lemma_tiles(sections: Seq<Option<String>>, rows: int)
    requires
        0 <= rows <= usize::MAX,
    ensures
        tiles(groups_of(sections, rows), rows),
    decreases rows,
{
    if rows > 0 {
        lemma_tiles(sections, rows - 1);
        let before = groups_of(sections, rows - 1);
        let after = groups_of(sections, rows);
        if starts(sections, rows - 1) {
            assert forall|i: int, j: int| 0 <= i < j < after.len() implies (
            #[trigger] after[i]).first + after[i].len <= (#[trigger] after[j]).first by {
                if j < before.len() {
                    assert(after[i] == before[i] && after[j] == before[j]);
                } else {
                    assert(after[i] == before[i]);
                    if i < before.len() - 1 {
                        assert(before[i].first + before[i].len <= before[before.len() - 1].first);
                    }
                }
            }
            assert forall|i: int| 0 <= i < after.len() - 1 implies (#[trigger] after[i]).first
                + after[i].len == after[i + 1].first by {
                assert(after[i] == before[i]);
            }
        } else {
            let k = before.len() - 1;
            assert(before.len() > 0);
            assert(after[k].first == before[k].first);
            assert forall|i: int| 0 <= i < k implies after[i] == before[i] by {}
            assert forall|i: int, j: int| 0 <= i < j < after.len() implies (
            #[trigger] after[i]).first + after[i].len <= (#[trigger] after[j]).first by {
                assert(before[i].first + before[i].len <= before[j].first);
            }
            assert forall|i: int| 0 <= i < after.len() - 1 implies (#[trigger] after[i]).first
                + after[i].len == after[i + 1].first by {
                assert(before[i].first + before[i].len == before[i + 1].first);
            }
        }
    }
}

proof fn lemma_path_of(groups: Seq<Group>, rows: int, section: int, item: int, from: int)
    requires
        tiles(groups, rows),
        0 <= from <= section < groups.len(),
        0 <= item < groups[section].len,
    ensures
        path_from(groups, groups[section].first + item, from) == Some((section, item)),
    decreases section - from,
{
    if from < section {
        assert(groups[from].first + groups[from].len <= groups[section].first);
        lemma_path_of(groups, rows, section, item, from + 1);
    }
}

proof fn lemma_row_has_path(groups: Seq<Group>, rows: int, row: int, from: int)
    requires
        tiles(groups, rows),
        0 <= from < groups.len(),
        groups[from].first <= row < rows,
    ensures
        path_from(groups, row, from) matches Some((s, i)) && row_at(groups, s, i) == Some(row),
    decreases groups.len() - from,
{
    if row >= groups[from].first + groups[from].len {
        if from + 1 < groups.len() {
            assert(groups[from].first + groups[from].len == groups[from + 1].first);
            lemma_row_has_path(groups, rows, row, from + 1);
        } else {
            assert(groups.last() == groups[from]);
        }
    }
}

impl NavMenu {
    pub open spec fn groups_spec(self) -> Seq<Group> {
        groups_of(self.sections@, self.items@.len() as int)
    }

    /// Build a menu; its layout draws headings when there is one.
    pub fn new(node: NodeId, content: MenuContent) -> (m: NavMenu)
        ensures
            m.node == node,
            m.items == content.items,
            m.icons == content.icons,
            m.tints == content.tints,
            m.menus == content.menus,
            m.badge_icons == content.badge_icons,
            m.badge_tints == content.badge_tints,
            m.sections == content.sections,
            m.headers == any_headed(content.sections@),
    {
        let headers = any_heading(&content.sections);
        NavMenu {
            node,
            items: content.items,
            icons: content.icons,
            tints: content.tints,
            menus: content.menus,
            badge_icons: content.badge_icons,
            badge_tints: content.badge_tints,
            sections: content.sections,
            headers,
        }
    }

    /// The rows changed; whether the list needs a new layout, headings being baked into it.
    pub fn set_items(&mut self, content: MenuContent) -> (relayout: bool)
        ensures
            final(self).node == old(self).node,
            final(self).items == content.items,
            final(self).icons == content.icons,
            final(self).tints == content.tints,
            final(self).menus == content.menus,
            final(self).badge_icons == content.badge_icons,
            final(self).badge_tints == content.badge_tints,
            final(self).sections == content.sections,
            final(self).headers == any_headed(content.sections@),
            relayout == (final(self).headers != old(self).headers),
    {
        let headers = any_heading(&content.sections);
        let relayout = headers != self.headers;
        self.items = content.items;
        self.icons = content.icons;
        self.tints = content.tints;
        self.menus = content.menus;
        self.badge_icons = content.badge_icons;
        self.badge_tints = content.badge_tints;
        self.sections = content.sections;
        self.headers = headers;
        relayout
    }

    /// The groups this menu draws.
    pub fn groups(&self) -> (out: Vec<Group>)
        ensures
            out@ == self.groups_spec(),
            tiles(out@, self.items@.len() as int),
    {
        let mut out: Vec<Group> = Vec::new();
        let n: usize = self.items.len();
        for row in 0..n
            invariant
                n == self.items@.len(),
                out@ == groups_of(self.sections@, row as int),
        {
            proof {
                lemma_tiles(self.sections@, row as int);
                lemma_tiles(self.sections@, row + 1);
            }
            let heading = row < self.sections.len() && self.sections[row].is_some();
            if heading || row == 0 {
                out.push(Group { first: row, len: 1 });
            } else {
                let k: usize = out.len() - 1;
                let last = out[k];
                out[k] = Group { first: last.first, len: last.len + 1 };
            }
        }
        proof {
            lemma_tiles(self.sections@, n as int);
        }
        out
    }

    /// How many sections the list has: one per group, and one for an empty list.
    pub fn section_count(&self) -> (r: usize)
        ensures
            r == (if self.groups_spec().len() == 0 {
                1
            } else {
                self.groups_spec().len()
            }),
    {
        let n: usize = self.groups().len();
        if n == 0 {
            1
        } else {
            n
        }
    }

    /// How many rows section `section` has.
    pub fn rows_in_section(&self, section: usize) -> (r: usize)
        ensures
            r == (if section < self.groups_spec().len() {
                self.groups_spec()[section as int].len as int
            } else {
                0
            }),
    {
        let g = self.groups();
        if section < g.len() {
            g[section].len
        } else {
            0
        }
    }

    /// The heading of section `section`; the rows before the first heading have none.
    pub fn heading(&self, section: usize) -> (r: Option<String>)
        ensures
            r == (if section < self.groups_spec().len() {
                heading_of(self.sections@, self.groups_spec()[section as int])
            } else {
                None
            }),
    {
        let g = self.groups();
        if section < g.len() {
            let first: usize = g[section].first;
            if first < self.sections.len() {
                match &self.sections[first] {
                    Some(title) => Some(title.clone()),
                    None => None,
                }
            } else {
                None
            }
        } else {
            None
        }
    }

    /// The flat row an index path addresses.
    pub fn row_of(&self, section: usize, item: usize) -> (r: Option<usize>)
        ensures
            match r {
                Some(row) => row_at(self.groups_spec(), section as int, item as int) == Some(
                    row as int,
                ) && row < self.items@.len(),
                None => row_at(self.groups_spec(), section as int, item as int) is None,
            },
    {
        let g = self.groups();
        let rows: usize = self.items.len();
        if section < g.len() && item < g[section].len {
            proof {
                assert(tiles(g@, rows as int));
                let last = g@.len() - 1;
                assert(g@.last() == g@[last]);
                if section < last {
                    assert(g@[section as int].first + g@[section as int].len <= g@[last].first);
                }
            }
            Some(g[section].first + item)
        } else {
            None
        }
    }

    /// The index path of a flat row.
    pub fn path_of(&self, row: usize) -> (r: Option<(usize, usize)>)
        ensures
            match r {
                Some((s, i)) => path_from(self.groups_spec(), row as int, 0) == Some(
                    (s as int, i as int),
                ),
                None => path_from(self.groups_spec(), row as int, 0) is None,
            },
    {
        let g = self.groups();
        let mut s: usize = 0;
        while s < g.len()
            invariant
                s <= g@.len(),
                g@ == self.groups_spec(),
                path_from(g@, row as int, 0) == path_from(g@, row as int, s as int),
            decreases g@.len() - s,
        {
            if g[s].first <= row && row - g[s].first < g[s].len {
                return Some((s, row - g[s].first));
            }
            s = s + 1;
        }
        None
    }

    /// The context menu of the row at an index path: absent for a row without entries.
    pub fn context_menu(&self, section: usize, item: usize) -> (r: Option<&Vec<MenuItem>>)
        ensures
            match row_at(self.groups_spec(), section as int, item as int) {
                Some(row) if row < self.menus@.len() && self.menus@[row]@.len() > 0 => r
                    matches Some(items) && *items == self.menus@[row],
                _ => r is None,
            },
    {
        match self.row_of(section, item) {
            Some(row) => {
                if row < self.menus.len() && self.menus[row].len() > 0 {
                    Some(&self.menus[row])
                } else {
                    None
                }
            },
            None => None,
        }
    }

    /// How many headings the list draws.
    pub fn heading_count(&self) -> (r: usize)
        ensures
            r == headings_before(self.sections@, self.items@.len() as int),
    {
        let mut count: usize = 0;
        let n: usize = self.items.len();
        for i in 0..n
            invariant
                n == self.items@.len(),
                count == headings_before(self.sections@, i as int),
                count <= i,
        {
            if i < self.sections.len() && self.sections[i].is_some() {
                count = count + 1;
            }
        }
        count
    }

    /// The list's own height in points: its rows, a band per heading, and its margins.
    pub fn list_height(&self) -> (points: u128)
        ensures
            points == self.items@.len() * 44 + headings_before(
                self.sections@,
                self.items@.len() as int,
            ) * 30 + 40,
    {
        let rows: u128 = self.items.len() as u128;
        let headings: u128 = self.heading_count() as u128;
        rows * 44 + headings * 30 + 40
    }
}

/// How many of the first `n` rows have a heading.
pub open spec fn headings_before(sections: Seq<Option<String>>, n: int) -> nat
    decreases n,
{
    if n <= 0 {
        0
    } else {
        headings_before(sections, n - 1) + if headed(sections, n - 1) {
            1nat
        } else {
            0nat
        }
    }
}

/// Whether a list draws headings: one of its rows has one.
pub fn any_heading(sections: &Vec<Option<String>>) -> (r: bool)
    ensures
        r == any_headed(sections@),
{
    let n: usize = sections.len();
    for i in 0..n
        invariant
            n == sections@.len(),
            forall|j: int| 0 <= j < i ==> !headed(sections@, j),
    {
        if sections[i].is_some() {
            proof {
                assert(headed(sections@, i as int));
            }
            return true;
        }
    }
    false
}

/// A row's trailing accessories: the status glyph, tinted if asked, and always the chevron.
pub struct Accessories {
    pub badge: Option<String>,
    pub badge_tint: Option<Color>,
    pub chevron: bool,
}

/// What a row shows.
pub struct RowFace {
    pub title: Option<String>,
    pub icon: Option<String>,
    pub tint: Option<Color>,
    pub accessories: Accessories,
}

pub open spec fn string_at(v: Seq<Option<String>>, i: int) -> Option<String> {
    if 0 <= i < v.len() {
        v[i]
    } else {
        None
    }
}

pub open spec fn color_at(v: Seq<Option<Color>>, i: int) -> Option<Color> {
    if 0 <= i < v.len() {
        v[i]
    } else {
        None
    }
}

fn get_string(v: &Vec<Option<String>>, i: usize) -> (r: Option<String>)
    ensures
        r == string_at(v@, i as int),
{
    if i < v.len() {
        match &v[i] {
            Some(s) => Some(s.clone()),
            None => None,
        }
    } else {
        None
    }
}

fn get_color(v: &Vec<Option<Color>>, i: usize) -> (r: Option<Color>)
    ensures
        r == color_at(v@, i as int),
{
    if i < v.len() {
        v[i]
    } else {
        None
    }
}

impl NavMenu {
    /// The face of the row at an index path; a path outside the list shows the first row's. A row
    /// without a status glyph has no use for its tint.
    pub fn row_face(&self, section: usize, item: usize) -> (r: RowFace)
        ensures
            ({
                let row = match row_at(self.groups_spec(), section as int, item as int) {
                    Some(row) => row,
                    None => 0,
                };
                &&& r.title == (if row < self.items@.len() {
                    Some(self.items@[row])
                } else {
                    None
                })
                &&& r.icon == string_at(self.icons@, row)
                &&& r.tint == color_at(self.tints@, row)
                &&& r.accessories.badge == string_at(self.badge_icons@, row)
                &&& r.accessories.badge_tint == (if r.accessories.badge is Some {
                    color_at(self.badge_tints@, row)
                } else {
                    None
                })
                &&& r.accessories.chevron
            }),
    {
        let row: usize = match self.row_of(section, item) {
            Some(row) => row,
            None => 0,
        };
        let title = if row < self.items.len() {
            Some(self.items[row].clone())
        } else {
            None
        };
        let badge = get_string(&self.badge_icons, row);
        let badge_tint = if badge.is_some() {
            get_color(&self.badge_tints, row)
        } else {
            None
        };
        RowFace {
            title,
            icon: get_string(&self.icons, row),
            tint: get_color(&self.tints, row),
            accessories: Accessories { badge, badge_tint, chevron: true },
        }
    }
}

/// Every row has a path, and the path leads back to it.
pub proof fn law_path_of_a_row_leads_back(sections: Seq<Option<String>>, rows: int, row: int)
    requires
        0 <= row < rows <= usize::MAX,
    ensures
        path_from(groups_of(sections, rows), row, 0) matches Some((s, i)) && row_at(
            groups_of(sections, rows),
            s,
            i,
        ) == Some(row),
{
    lemma_tiles(sections, rows);
    lemma_row_has_path(groups_of(sections, rows), rows, row, 0);
}

/// Every path the list draws addresses a row, and the row leads back to the path.
pub proof fn law_row_of_a_path_leads_back(
    sections: Seq<Option<String>>,
    rows: int,
    section: int,
    item: int,
)
    requires
        0 <= rows <= usize::MAX,
        0 <= section < groups_of(sections, rows).len(),
        0 <= item < groups_of(sections, rows)[section].len,
    ensures
        row_at(groups_of(sections, rows), section, item) matches Some(row) && path_from(
            groups_of(sections, rows),
            row,
            0,
        ) == Some((section, item)),
{
    lemma_tiles(sections, rows);
    lemma_path_of(groups_of(sections, rows), rows, section, item, 0);
}

/// Headings shift no row: grouping tiles the rows in order, whatever the headings are.
pub proof fn law_groups_tile_the_rows(sections: Seq<Option<String>>, rows: int)
    requires
        0 <= rows <= usize::MAX,
    ensures
        tiles(groups_of(sections, rows), rows),
{
    lemma_tiles(sections, rows);
}

/// Each heading opens one group; rows before the first heading form one more.
pub proof fn law_one_group_per_heading(sections: Seq<Option<String>>, rows: int)
    requires
        0 <= rows <= usize::MAX,
    ensures
        groups_of(sections, rows).len() == headings_before(sections, rows) + (if rows > 0
            && !headed(sections, 0) {
            1nat
        } else {
            0nat
        }),
    decreases rows,
{
    if rows > 0 {
        law_one_group_per_heading(sections, rows - 1);
        lemma_tiles(sections, rows - 1);
    }
}

/// A menu holds the rows it was given last, each with its own decorations, and stays the same node's. It
/// draws headings while one of its rows has one, and is laid out anew when that changed.
pub proof fn law_menu_holds_its_content(
    node: NodeId,
    first: MenuContent,
    content: MenuContent,
    made: NavMenu,
    m: &mut NavMenu,
    relayout: bool,
    row: int,
)
    requires
        call_ensures(NavMenu::new, (node, first), made),
        *old(m) == made,
        call_ensures(NavMenu::set_items, (m, content), relayout),
    ensures
        made.node == node && final(m).node == node,
        made.items == first.items && made.icons == first.icons && made.tints == first.tints && made.menus
            == first.menus && made.badge_icons == first.badge_icons && made.badge_tints
            == first.badge_tints && made.sections == first.sections,
        final(m).items == content.items && final(m).icons == content.icons && final(m).tints
            == content.tints && final(m).menus == content.menus && final(m).badge_icons
            == content.badge_icons && final(m).badge_tints == content.badge_tints && final(m).sections
            == content.sections,
        0 <= row < first.sections@.len() && first.sections@[row] is Some ==> made.headers,
        first.sections@.len() == 0 ==> !made.headers,
        0 <= row < content.sections@.len() && content.sections@[row] is Some ==> final(m).headers,
        (forall|i: int| 0 <= i < content.sections@.len() ==> (#[trigger] content.sections@[i]) is None)
            ==> !final(m).headers,
        relayout <==> made.headers != final(m).headers,
{
    assert(made.headers == any_headed(first.sections@));
    assert(final(m).headers == any_headed(content.sections@));
    if 0 <= row < first.sections@.len() && first.sections@[row] is Some {
        assert(headed(first.sections@, row));
    }
    if 0 <= row < content.sections@.len() && content.sections@[row] is Some {
        assert(headed(content.sections@, row));
    }
}

/// Whether a list draws headings is whether one of its rows has one.
pub proof fn law_headings_are_seen(sections: &Vec<Option<String>>, row: int, r: bool)
    requires
        call_ensures(any_heading, (sections,), r),
    ensures
        0 <= row < sections@.len() && sections@[row] is Some ==> r,
        (forall|i: int| 0 <= i < sections@.len() ==> (#[trigger] sections@[i]) is None) ==> !r,
{
    assert(r == any_headed(sections@));
    if 0 <= row < sections@.len() && sections@[row] is Some {
        assert(headed(sections@, row));
    }
}

/// Every row of the list has a path and the path leads back to the row; a row outside has none.
pub proof fn law_every_row_is_found_again(
    m: &NavMenu,
    row: usize,
    path: Option<(usize, usize)>,
    section: usize,
    item: usize,
    back: Option<usize>,
)
    requires
        call_ensures(NavMenu::path_of, (m, row), path),
        call_ensures(NavMenu::row_of, (m, section, item), back),
    ensures
        row < m.items@.len() ==> path is Some,
        row >= m.items@.len() ==> path is None,
        path == Some((section, item)) ==> back == Some(row),
        back == Some(row) ==> path == Some((section, item)),
{
    let rows = m.items@.len() as int;
    assert(m.items.len() == m.items@.len());
    lemma_tiles(m.sections@, rows);
    let g = m.groups_spec();
    if row < rows {
        lemma_row_has_path(g, rows, row as int, 0);
    } else {
        lemma_no_path(g, rows, row as int, 0);
    }
    if back == Some(row) {
        lemma_path_of(g, rows, section as int, item as int, 0);
    }
    if path == Some((section, item)) {
        lemma_row_has_path(g, rows, row as int, 0);
    }
}

proof fn lemma_no_path(groups: Seq<Group>, rows: int, row: int, from: int)
    requires
        tiles(groups, rows),
        0 <= from,
        0 <= rows <= row,
    ensures
        path_from(groups, row, from) is None,
    decreases groups.len() - from,
{
    if from < groups.len() {
        let last = groups.len() - 1;
        assert(groups.last() == groups[last]);
        if from < last {
            assert(groups[from].first + groups[from].len <= groups[last].first);
        }
        lemma_no_path(groups, rows, row, from + 1);
    }
}

/// Rows read on through the sections: the list starts at its first row, the next row of a section is the
/// next of the list, and behind a section's last the next section goes on.
pub proof fn law_rows_read_on_through_sections(
    m: &NavMenu,
    section: usize,
    item: usize,
    len: usize,
    first: Option<usize>,
    here: Option<usize>,
    beside: Option<usize>,
    below: Option<usize>,
)
    requires
        item < usize::MAX && section < usize::MAX,
        call_ensures(NavMenu::rows_in_section, (m, section), len),
        call_ensures(NavMenu::row_of, (m, 0usize, 0usize), first),
        call_ensures(NavMenu::row_of, (m, section, item), here),
        call_ensures(NavMenu::row_of, (m, section, (item + 1) as usize), beside),
        call_ensures(NavMenu::row_of, (m, (section + 1) as usize, 0usize), below),
    ensures
        m.items@.len() > 0 ==> first == Some(0usize),
        here is Some <==> item < len,
        here matches Some(row) ==> item + 1 < len ==> beside == Some((row + 1) as usize),
        here matches Some(row) ==> item + 1 == len ==> (if row + 1 < m.items@.len() {
            below == Some((row + 1) as usize)
        } else {
            below is None
        }),
{
    let rows = m.items@.len() as int;
    assert(m.items.len() == m.items@.len());
    lemma_tiles(m.sections@, rows);
    let g = m.groups_spec();
    if section < g.len() {
        assert(g[section as int].len > 0);
        if section + 1 < g.len() {
            assert(g[section as int].first + g[section as int].len == g[section + 1].first);
            assert(g[section + 1].len > 0);
            let last = g.len() - 1;
            assert(g.last() == g[last]);
            if section + 1 < last {
                assert(g[section + 1].first + g[section + 1].len <= g[last].first);
            }
        } else {
            assert(g.last() == g[section as int]);
        }
    }
    if rows > 0 {
        assert(g[0].len > 0);
    }
}

/// A section starts exactly at the first row and at every row with a heading, and its heading is that of
/// the row it starts at.
pub proof fn law_sections_start_at_headings(
    m: &NavMenu,
    section: usize,
    item: usize,
    row: Option<usize>,
    start: Option<usize>,
    heading: Option<String>,
)
    requires
        call_ensures(NavMenu::row_of, (m, section, item), row),
        call_ensures(NavMenu::row_of, (m, section, 0usize), start),
        call_ensures(NavMenu::heading, (m, section), heading),
    ensures
        row matches Some(r) ==> (item == 0 <==> r == 0 || r < m.sections@.len() && m.sections@[r as int]
            is Some),
        start is None ==> heading is None,
        start matches Some(s) ==> s < m.sections@.len() ==> heading == m.sections@[s as int],
        start matches Some(s) ==> s >= m.sections@.len() ==> heading is None,
{
    let rows = m.items@.len() as int;
    assert(m.items.len() == m.items@.len());
    lemma_tiles(m.sections@, rows);
    lemma_starts(m.sections@, rows);
    let g = m.groups_spec();
    if section < g.len() {
        assert(g[section as int].len > 0);
        if item < g[section as int].len {
            let row = g[section as int].first + item;
            assert(starts_inside(m.sections@, g[section as int]));
            assert(starts(m.sections@, row) <==> item == 0);
        }
    }
}

/// In a group only the first row starts one.
pub open spec fn starts_inside(sections: Seq<Option<String>>, g: Group) -> bool {
    &&& starts(sections, g.first as int)
    &&& forall|row: int| g.first < row < g.first + g.len ==> !#[trigger] starts(sections, row)
}

proof fn lemma_starts(sections: Seq<Option<String>>, rows: int)
    requires
        0 <= rows <= usize::MAX,
    ensures
        forall|k: int|
            0 <= k < groups_of(sections, rows).len() ==> starts_inside(
                sections,
                #[trigger] groups_of(sections, rows)[k],
            ),
    decreases rows,
{
    if rows > 0 {
        lemma_starts(sections, rows - 1);
        lemma_tiles(sections, rows - 1);
        lemma_tiles(sections, rows);
        let before = groups_of(sections, rows - 1);
        let after = groups_of(sections, rows);
        assert forall|k: int| 0 <= k < after.len() implies starts_inside(sections, #[trigger] after[k]) by {
            if k < before.len() - 1 || (k == before.len() - 1 && starts(sections, rows - 1)) {
                assert(after[k] == before[k]);
            } else if k == before.len() - 1 {
                let was = before[k];
                let g = after[k];
                assert(starts_inside(sections, was));
                assert forall|row: int| g.first < row < g.first + g.len implies !#[trigger] starts(
                    sections,
                    row,
                ) by {
                    if row < was.first + was.len {
                        assert(!starts(sections, row));
                    }
                }
            }
        }
    }
}

/// A list has a section for each one that has rows, and one while it is empty.
pub proof fn law_list_has_its_sections(m: &NavMenu, count: usize, section: usize, len: usize, groups: Vec<Group>)
    requires
        call_ensures(NavMenu::section_count, (m,), count),
        call_ensures(NavMenu::rows_in_section, (m, section), len),
        call_ensures(NavMenu::groups, (m,), groups),
    ensures
        count >= 1,
        m.items@.len() == 0 ==> count == 1 && len == 0 && groups@.len() == 0,
        m.items@.len() > 0 ==> (section < count <==> len > 0) && groups@.len() == count,
        section < groups@.len() ==> groups@[section as int].len == len,
{
    assert(m.items.len() == m.items@.len());
    lemma_tiles(m.sections@, m.items@.len() as int);
    let g = m.groups_spec();
    if section < g.len() {
        assert(g[section as int].len > 0);
    }
}

/// A row shows its own title, glyph, tint and status, and opens its own context menu, if it has entries.
/// A status tint without a status is not shown; every row has its chevron.
pub proof fn law_row_shows_its_own(
    m: &NavMenu,
    section: usize,
    item: usize,
    row: usize,
    face: RowFace,
    menu: Option<&Vec<MenuItem>>,
)
    requires
        call_ensures(NavMenu::row_of, (m, section, item), Some(row)),
        call_ensures(NavMenu::row_face, (m, section, item), face),
        call_ensures(NavMenu::context_menu, (m, section, item), menu),
    ensures
        face.title == Some(m.items@[row as int]),
        row < m.icons@.len() ==> face.icon == m.icons@[row as int],
        row >= m.icons@.len() ==> face.icon is None,
        row < m.tints@.len() ==> face.tint == m.tints@[row as int],
        row >= m.tints@.len() ==> face.tint is None,
        row < m.badge_icons@.len() ==> face.accessories.badge == m.badge_icons@[row as int],
        row >= m.badge_icons@.len() ==> face.accessories.badge is None,
        face.accessories.badge is None ==> face.accessories.badge_tint is None,
        face.accessories.badge is Some && row < m.badge_tints@.len() ==> face.accessories.badge_tint
            == m.badge_tints@[row as int],
        face.accessories.chevron,
        row < m.menus@.len() && m.menus@[row as int]@.len() > 0 ==> (menu matches Some(entries) && *entries
            == m.menus@[row as int]),
        row >= m.menus@.len() || m.menus@[row as int]@.len() == 0 ==> menu is None,
{
}

/// One more row makes the list taller by a row, and by a band where it has a heading. An empty list keeps
/// its margins.
pub proof fn law_list_grows_by_its_rows(
    m: &NavMenu,
    more: &NavMenu,
    title: String,
    count: usize,
    count_more: usize,
    height: u128,
    taller: u128,
)
    requires
        more.items@ == m.items@.push(title),
        more.sections == m.sections,
        call_ensures(NavMenu::heading_count, (m,), count),
        call_ensures(NavMenu::heading_count, (more,), count_more),
        call_ensures(NavMenu::list_height, (m,), height),
        call_ensures(NavMenu::list_height, (more,), taller),
    ensures
        m.items@.len() == 0 ==> height == 40 && count == 0,
        ({
            let row = m.items@.len() as int;
            let headed = row < m.sections@.len() && m.sections@[row] is Some;
            &&& headed ==> taller == height + 74 && count_more == count + 1
            &&& !headed ==> taller == height + 44 && count_more == count
        }),
{
}

} // verus!
