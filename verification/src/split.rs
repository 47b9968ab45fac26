//! Navigation hosts: a plain stack, or an adaptive split whose columns UIKit merges into one
//! stack when it collapses and takes apart again when it expands. Day observes those decisions,
//! finishes a merge UIKit left half done, and rebuilds the host when the destination in force
//! calls for another number of columns.

use crate::nav_stack::{day_pages, never_bare, pages_of, Entry};
use crate::types::{NodeId, Scalar};
use vstd::prelude::*;

verus! {

/// The adaptive half of a navigation host.
#[derive(Clone, Copy, PartialEq, Eq, Structural, Debug)]
pub struct SplitParts {
    pub split_vc: usize,
    /// The sidebar page's stack, and the merged stack while collapsed.
    pub primary_nav: usize,
    /// The content list's stack, on a host of three columns.
    pub supplementary_nav: Option<usize>,
    /// The content list's width, when the app declares a content-list pane.
    pub list_width: Option<Scalar>,
    /// Whether the destination in force shows the content list.
    pub list_shown: bool,
    /// The host's own view, stable across a rebuild.
    pub container: usize,
    /// The content list's page, kept whether or not there is a column for it.
    pub list_vc: Option<usize>,
    /// The blank root the secondary column of a triple host holds while it has no page.
    pub secondary_placeholder: Option<usize>,
}

#[derive(Clone, Copy, PartialEq, Eq, Structural, Debug)]
pub struct NavHost {
    /// The stack details are pushed on: the secondary column of a split.
    pub nav: usize,
    pub host_node: NodeId,
    /// `Some` for an adaptive host, `None` for a plain stack.
    pub split: Option<SplitParts>,
    /// UIKit's current answer; always `false` for a plain stack.
    pub collapsed: bool,
    /// Set around Day's own pops.
    pub day_pop: bool,
    /// Whether the surface carries an inline search field.
    pub search: bool,
}

#[derive(Clone, Copy, PartialEq, Eq, Structural, Debug)]
pub enum Column {
    Primary,
    Supplementary,
    Secondary,
}

#[derive(Clone, Copy, PartialEq, Eq, Structural, Debug)]
pub enum Presentation {
    Split,
    Stack,
    Tabs,
}

/// How a split of two or three columns is built.
#[derive(Clone, Copy, PartialEq, Eq, Structural, Debug)]
pub struct SplitConfig {
    /// A supplementary column for the content list; every column beside the others when there is
    /// room, tiled, never overlaid.
    pub triple: bool,
    /// The secondary column starts on the placeholder: it would otherwise be an empty controller.
    pub seed_secondary: bool,
    /// The supplementary column's width; `None` leaves the minimum.
    pub list_width: Option<Scalar>,
}

impl SplitConfig {
    /// The split of this configuration made of fresh controllers: the supplementary column and the
    /// placeholder are there exactly on a host of three columns.
    pub open spec fn built(self, fresh: Fresh) -> SplitBuild {
        SplitBuild {
            split_vc: fresh.split_vc,
            primary_nav: fresh.primary_nav,
            supplementary_nav: if self.triple {
                Some(fresh.supplementary_nav)
            } else {
                None
            },
            secondary_placeholder: if self.triple {
                Some(fresh.placeholder)
            } else {
                None
            },
        }
    }

    pub fn build(&self, fresh: Fresh) -> (r: SplitBuild)
        ensures
            r == self.built(fresh),
    {
        SplitBuild {
            split_vc: fresh.split_vc,
            primary_nav: fresh.primary_nav,
            supplementary_nav: if self.triple {
                Some(fresh.supplementary_nav)
            } else {
                None
            },
            secondary_placeholder: if self.triple {
                Some(fresh.placeholder)
            } else {
                None
            },
        }
    }
}

/// Controllers made for a split. A host of two columns has no use for the last two.
#[derive(Clone, Copy, PartialEq, Eq, Structural, Debug)]
pub struct Fresh {
    pub split_vc: usize,
    pub primary_nav: usize,
    pub secondary_nav: usize,
    pub supplementary_nav: usize,
    pub placeholder: usize,
}

/// The controllers of a split just built.
#[derive(Clone, Copy, PartialEq, Eq, Structural, Debug)]
pub struct SplitBuild {
    pub split_vc: usize,
    pub primary_nav: usize,
    pub supplementary_nav: Option<usize>,
    pub secondary_placeholder: Option<usize>,
}

/// The pages of a detail column that a collapse left behind, and the merged stack they belong to.
pub struct Strand {
    pub primary: usize,
    pub secondary: usize,
    pub merged: Vec<usize>,
}

/// What a collapse or expansion asks for: the strand to merge (empty the secondary, then set the
/// primary, unanimated), the presentation to report, and a turn later the rebuild of an expanded
/// host and the settling of its columns.
pub struct SplitChange {
    pub node: NodeId,
    pub strand: Option<Strand>,
    pub presentation: Presentation,
    pub rehost: bool,
}

/// A rebuild: the old controllers are emptied and unmounted, a fresh split is built with a fresh
/// secondary stack, and each column takes its pages.
pub struct Rehost {
    pub old_split: usize,
    /// The stacks to empty first, in order: a page mounts in one stack at a time.
    pub emptied: Vec<usize>,
    pub config: SplitConfig,
    pub container: usize,
    pub primary: Vec<usize>,
    pub supplementary: Vec<usize>,
    pub secondary: Vec<usize>,
    /// The back guard the fresh secondary stack takes over from the old one.
    pub guarded: bool,
}

/// A patch to a navigation host.
pub enum NavPatch {
    Pushed,
    Popped,
    Title(String),
    GuardTop(bool),
    Presentation,
    Select(usize),
    ListInStack,
    ListVisible(bool),
}

/// What a patch asks for.
pub enum NavAct {
    Nothing,
    /// Retitle the top page's controller.
    Title(usize, String),
    /// Arm or disarm the back guard of a stack.
    Guard(usize, bool),
    /// Rebuild the host if the destination calls for another one ([`NavHost::rehost`]).
    Column,
    /// Behind the modal queue: show the supplementary column, or pop the primary to its root as
    /// Day's own pop.
    TripleList { svc: usize, primary: usize, show: bool },
}

impl NavHost {
    /// The stack that owns the pages now: the primary's while a split is collapsed, else the
    /// host's own.
    pub open spec fn active(self) -> usize {
        match self.split {
            Some(parts) if self.collapsed => parts.primary_nav,
            _ => self.nav,
        }
    }

    /// A collapsed host of three columns.
    pub open spec fn collapsed_triple(self) -> bool {
        self.collapsed && self.split is Some && self.split->0.supplementary_nav is Some
    }

    /// The blank root that is no page.
    pub open spec fn placeholder_spec(self) -> Option<usize> {
        match self.split {
            Some(parts) => parts.secondary_placeholder,
            None => None,
        }
    }

    /// The blank root the active stack holds while it has no page: the secondary column of an
    /// expanded host of three columns is never empty.
    pub open spec fn blank_spec(self) -> Option<usize> {
        match self.split {
            Some(parts) if !self.collapsed && parts.supplementary_nav is Some => {
                parts.secondary_placeholder
            },
            _ => None,
        }
    }

    pub fn blank(&self) -> (r: Option<usize>)
        ensures
            r == self.blank_spec(),
    {
        match self.split {
            Some(parts) if !self.collapsed && parts.supplementary_nav.is_some() => {
                parts.secondary_placeholder
            },
            _ => None,
        }
    }

    pub fn active_nav(&self) -> (r: usize)
        ensures
            r == self.active(),
    {
        match self.split {
            Some(parts) if self.collapsed => parts.primary_nav,
            _ => self.nav,
        }
    }

    pub fn is_collapsed_triple(&self) -> (r: bool)
        ensures
            r == self.collapsed_triple(),
    {
        match self.split {
            Some(parts) => self.collapsed && parts.supplementary_nav.is_some(),
            None => false,
        }
    }

    pub fn placeholder(&self) -> (r: Option<usize>)
        ensures
            r == self.placeholder_spec(),
    {
        match self.split {
            Some(parts) => parts.secondary_placeholder,
            None => None,
        }
    }

    /// The outermost controller behind the host's handle.
    pub fn controller(&self) -> (r: usize)
        ensures
            r == (match self.split {
                Some(parts) => parts.split_vc,
                None => self.nav,
            }),
    {
        match self.split {
            Some(parts) => parts.split_vc,
            None => self.nav,
        }
    }

    /// Which column tops the collapsed stack: the detail while one is pushed, the content list
    /// while it belongs to the destination, else the sidebar. `secondary` is the detail column's
    /// stack; `None` leaves UIKit's proposal.
    pub fn top_column_for_collapsing(&self, secondary: &Vec<Entry>) -> (r: Option<Column>)
        ensures
            r == (match self.split {
                None => None,
                Some(parts) => if pages_of(secondary@, parts.secondary_placeholder).len() > 0 {
                    Some(Column::Secondary)
                } else if parts.supplementary_nav is Some && parts.list_shown {
                    Some(Column::Supplementary)
                } else {
                    Some(Column::Primary)
                },
            }),
    {
        match self.split {
            None => None,
            Some(parts) => {
                let detail = day_pages(secondary, parts.secondary_placeholder).len() > 0;
                if detail {
                    Some(Column::Secondary)
                } else if parts.supplementary_nav.is_some() && parts.list_shown {
                    Some(Column::Supplementary)
                } else {
                    Some(Column::Primary)
                }
            },
        }
    }

    /// UIKit collapsed or expanded the host. `primary` and `secondary` are the controllers those
    /// stacks report. On a double-column collapse whose primary holds nothing but the sidebar
    /// root, whatever the secondary still holds goes on top of it.
    pub fn presentation_changed(
        &mut self,
        expanded: bool,
        primary: Vec<usize>,
        secondary: Vec<usize>,
    ) -> (r: Option<SplitChange>)
        ensures
            match old(self).split {
                None => r is None && *final(self) == *old(self),
                Some(parts) => {
                    &&& *final(self) == (NavHost { collapsed: !expanded, ..*old(self) })
                    &&& r matches Some(change) && {
                        &&& change.node == old(self).host_node
                        &&& change.presentation == if expanded {
                            Presentation::Split
                        } else {
                            Presentation::Stack
                        }
                        &&& change.rehost == expanded
                        &&& change.strand is Some == (!expanded && parts.supplementary_nav is None
                            && primary@.len() <= 1 && secondary@.len() > 0)
                        &&& change.strand matches Some(strand) ==> strand.primary
                            == parts.primary_nav && strand.secondary == old(self).nav
                            && strand.merged@ == primary@ + secondary@
                    }
                },
            },
    {
        let parts = match self.split {
            None => {
                return None;
            },
            Some(parts) => parts,
        };
        self.collapsed = !expanded;
        let mut strand: Option<Strand> = None;
        if !expanded && parts.supplementary_nav.is_none() && primary.len() <= 1 && secondary.len()
            > 0 {
            let mut merged = primary;
            let mut rest = secondary;
            merged.append(&mut rest);
            strand = Some(
                Strand { primary: parts.primary_nav, secondary: self.nav, merged },
            );
        }
        Some(
            SplitChange {
                node: self.host_node,
                strand,
                presentation: if expanded {
                    Presentation::Split
                } else {
                    Presentation::Stack
                },
                rehost: expanded,
            },
        )
    }

    /// Whether the host in place is not the one the destination in force calls for. `native` is
    /// UIKit's own answer to whether the split is collapsed.
    pub open spec fn wants_rehost(self, native: bool) -> bool {
        match self.split {
            None => false,
            Some(parts) => parts.list_width is Some && !self.collapsed && !native
                && parts.list_shown != (parts.supplementary_nav is Some),
        }
    }

    /// `plan` rebuilds the host as its destination calls for.
    pub open spec fn rebuilt_by(
        self,
        sidebar: Option<usize>,
        secondary: Seq<Entry>,
        guarded: bool,
        plan: Rehost,
    ) -> bool {
        let parts = self.split->0;
        let details = pages_of(secondary, parts.secondary_placeholder);
        &&& plan.old_split == parts.split_vc
        &&& plan.container == parts.container
        &&& plan.emptied@ == seq![parts.primary_nav] + one(parts.supplementary_nav) + seq![self.nav]
        &&& plan.config.triple == parts.list_shown
        &&& plan.config.seed_secondary == (parts.list_shown && details.len() == 0)
        &&& plan.config.list_width == parts.list_width
        &&& plan.primary@ == one(sidebar)
        &&& plan.supplementary@ == if parts.list_shown {
            one(parts.list_vc)
        } else {
            Seq::empty()
        }
        &&& plan.secondary@ == details
        &&& plan.guarded == guarded
    }

    /// The rebuild the destination calls for, if any. `sidebar` is the primary stack's root,
    /// `secondary` the detail column's stack and `guarded` its back guard.
    pub fn rehost(
        &self,
        native: bool,
        sidebar: Option<usize>,
        secondary: &Vec<Entry>,
        guarded: bool,
    ) -> (r: Option<Rehost>)
        ensures
            r is Some == self.wants_rehost(native),
            r matches Some(plan) ==> self.rebuilt_by(sidebar, secondary@, guarded, plan),
    {
        let parts = match self.split {
            None => {
                return None;
            },
            Some(parts) => parts,
        };
        if parts.list_width.is_none() || self.collapsed || native {
            return None;
        }
        let triple = parts.list_shown;
        if triple == parts.supplementary_nav.is_some() {
            return None;
        }
        let details = day_pages(secondary, parts.secondary_placeholder);
        let mut emptied: Vec<usize> = Vec::new();
        emptied.push(parts.primary_nav);
        match parts.supplementary_nav {
            Some(snav) => {
                emptied.push(snav);
            },
            None => {},
        }
        emptied.push(self.nav);
        let supplementary = if triple {
            singleton(parts.list_vc)
        } else {
            Vec::new()
        };
        proof {
            assert(emptied@ =~= seq![parts.primary_nav] + one(parts.supplementary_nav) + seq![
                self.nav,
            ]);
            assert(supplementary@ =~= if triple {
                one(parts.list_vc)
            } else {
                Seq::empty()
            });
        }
        Some(
            Rehost {
                old_split: parts.split_vc,
                emptied,
                config: SplitConfig {
                    triple,
                    seed_secondary: triple && details.len() == 0,
                    list_width: parts.list_width,
                },
                container: parts.container,
                primary: singleton(sidebar),
                supplementary,
                secondary: details,
                guarded,
            },
        )
    }

    /// The rebuilt host, made of `fresh` controllers as the plan's `config` says, takes the place
    /// of the old one.
    pub fn rehosted(&mut self, config: SplitConfig, fresh: Fresh)
        ensures
            *final(self) == old(self).after_rehost(config, fresh),
    {
        let built = config.build(fresh);
        self.nav = fresh.secondary_nav;
        match self.split {
            None => {},
            Some(parts) => {
                self.split = Some(
                    SplitParts {
                        split_vc: built.split_vc,
                        primary_nav: built.primary_nav,
                        supplementary_nav: built.supplementary_nav,
                        secondary_placeholder: built.secondary_placeholder,
                        ..parts
                    },
                );
            },
        }
    }

    pub open spec fn after_rehost(self, config: SplitConfig, fresh: Fresh) -> NavHost {
        let built = config.built(fresh);
        NavHost {
            nav: fresh.secondary_nav,
            split: match self.split {
                None => None,
                Some(parts) => Some(
                    SplitParts {
                        split_vc: built.split_vc,
                        primary_nav: built.primary_nav,
                        supplementary_nav: built.supplementary_nav,
                        secondary_placeholder: built.secondary_placeholder,
                        ..parts
                    },
                ),
            },
            ..self
        }
    }

    /// The controllers to lay out once a presentation or a rebuild has settled, in order.
    pub fn settle_columns(&self) -> (r: Vec<usize>)
        ensures
            r@ == (match self.split {
                None => Seq::empty(),
                Some(parts) => seq![parts.primary_nav, self.nav, parts.split_vc],
            }),
    {
        let mut out: Vec<usize> = Vec::new();
        match self.split {
            None => {},
            Some(parts) => {
                out.push(parts.primary_nav);
                out.push(self.nav);
                out.push(parts.split_vc);
            },
        }
        out
    }

    /// Apply a patch. `top` is the page on top as the app will see it. A page's arrival and
    /// departure come with its identity elsewhere, and a selection is a tab host's: neither asks
    /// anything here.
    pub fn patch(&mut self, patch: NavPatch, top: Option<usize>) -> (act: NavAct)
        ensures
            match patch {
                NavPatch::Title(t) => *final(self) == *old(self) && match top {
                    Some(vc) => act == NavAct::Title(vc, t),
                    None => act is Nothing,
                },
                NavPatch::GuardTop(on) => *final(self) == *old(self) && act == NavAct::Guard(
                    old(self).active(),
                    on,
                ),
                NavPatch::ListVisible(v) => {
                    &&& *final(self) == old(self).list_marked(v)
                    &&& if !old(self).collapsed {
                        act is Column
                    } else if old(self).collapsed_triple() {
                        act == (NavAct::TripleList {
                            svc: old(self).split->0.split_vc,
                            primary: old(self).split->0.primary_nav,
                            show: v,
                        })
                    } else {
                        act is Nothing
                    }
                },
                _ => *final(self) == *old(self) && act is Nothing,
            },
    {
        match patch {
            NavPatch::Title(t) => match top {
                Some(vc) => NavAct::Title(vc, t),
                None => NavAct::Nothing,
            },
            NavPatch::GuardTop(on) => NavAct::Guard(self.active_nav(), on),
            NavPatch::ListVisible(v) => {
                match self.split {
                    None => {},
                    Some(parts) => {
                        self.split = Some(SplitParts { list_shown: v, ..parts });
                    },
                }
                if !self.collapsed {
                    return NavAct::Column;
                }
                match self.split {
                    Some(parts) if parts.supplementary_nav.is_some() => NavAct::TripleList {
                        svc: parts.split_vc,
                        primary: parts.primary_nav,
                        show: v,
                    },
                    _ => NavAct::Nothing,
                }
            },
            _ => NavAct::Nothing,
        }
    }

    pub open spec fn list_marked(self, v: bool) -> NavHost {
        NavHost {
            split: match self.split {
                None => None,
                Some(parts) => Some(SplitParts { list_shown: v, ..parts }),
            },
            ..self
        }
    }
}

/// At most one controller, as a stack.
pub open spec fn one(vc: Option<usize>) -> Seq<usize> {
    match vc {
        Some(vc) => seq![vc],
        None => Seq::empty(),
    }
}

fn singleton(vc: Option<usize>) -> (r: Vec<usize>)
    ensures
        r@ == one(vc),
{
    let mut out: Vec<usize> = Vec::new();
    match vc {
        Some(vc) => {
            out.push(vc);
        },
        None => {},
    }
    out
}

/// The presentation a navigation host is realized for.
#[derive(Clone, Copy, PartialEq, Eq, Structural, Debug)]
pub enum Lowering {
    Stack,
    Split,
    Tabs,
}

/// How the split of a host is first built: with the content list's column when the app declares
/// one and the first destination shows it, and the secondary column seeded, as it holds nothing.
pub fn first_split(list_width: Option<Scalar>, list_visible: bool) -> (r: SplitConfig)
    ensures
        r.triple == (list_width is Some && list_visible),
        r.seed_secondary == r.triple,
        r.list_width == list_width,
{
    let triple = list_width.is_some() && list_visible;
    SplitConfig { triple, seed_secondary: triple, list_width }
}

/// The active stack is one of the host's own, and a plain stack never moves.
pub proof fn law_plain_host_has_one_stack(host: NavHost, expanded: bool)
    requires
        host.split is None,
    ensures
        host.active() == host.nav,
        (NavHost { collapsed: expanded, ..host }).active() == host.nav,
{
}

/// Finishing a merge loses no page and reorders none: the merged stack reads as the sidebar
/// followed by the details, exactly as if UIKit had merged them itself.
pub proof fn law_merge_keeps_every_page(
    primary: Seq<usize>,
    secondary: Seq<usize>,
    merged: Seq<usize>,
    vc: usize,
)
    requires
        merged == primary + secondary,
    ensures
        merged.contains(vc) <==> primary.contains(vc) || secondary.contains(vc),
        merged.len() == primary.len() + secondary.len(),
        merged.take(primary.len() as int) == primary,
        merged.skip(primary.len() as int) == secondary,
{
    if primary.contains(vc) {
        let i = choose|i: int| 0 <= i < primary.len() && primary[i] == vc;
        assert(merged[i] == vc);
    }
    if secondary.contains(vc) {
        let i = choose|i: int| 0 <= i < secondary.len() && secondary[i] == vc;
        assert(merged[primary.len() + i] == vc);
    }
}

impl Rehost {
    /// What the fresh secondary stack holds: the pages of the old one, or the placeholder it is
    /// seeded with.
    pub open spec fn secondary_stack(self, fresh: Fresh) -> Seq<usize> {
        if self.config.seed_secondary {
            seq![fresh.placeholder]
        } else {
            self.secondary@
        }
    }
}

/// A host with what its columns show: the stacks as UIKit reports them, and the back guard of the
/// detail column.
pub struct Shown {
    pub host: NavHost,
    pub sidebar: Option<usize>,
    pub secondary: Seq<Entry>,
    pub guarded: bool,
}

impl Shown {
    /// The detail pages, the placeholder left out.
    pub open spec fn details(self) -> Seq<usize> {
        pages_of(self.secondary, self.host.placeholder_spec())
    }

    /// An expanded split with a content list, as the host has it and as UIKit does.
    pub open spec fn adapts(self, native: bool) -> bool {
        self.host.split is Some && self.host.split->0.list_width is Some && !self.host.collapsed
            && !native
    }

    /// `plan` is what [`NavHost::rehost`] answers here.
    pub open spec fn planned(self, native: bool, plan: Option<Rehost>) -> bool {
        &&& plan is Some == self.host.wants_rehost(native)
        &&& plan matches Some(plan) ==> self.host.rebuilt_by(
            self.sidebar,
            self.secondary,
            self.guarded,
            plan,
        )
    }

    /// After that answer is carried out with `fresh` controllers: the columns take what the plan
    /// gives each.
    pub open spec fn carried_out(self, plan: Option<Rehost>, fresh: Fresh) -> Shown {
        match plan {
            None => self,
            Some(plan) => Shown {
                host: self.host.after_rehost(plan.config, fresh),
                sidebar: if plan.primary@.len() > 0 {
                    Some(plan.primary@[0])
                } else {
                    None
                },
                secondary: flat(plan.secondary_stack(fresh)),
                guarded: plan.guarded,
            },
        }
    }
}

/// Controllers as a stack reports them, none of them nested.
pub open spec fn flat(stack: Seq<usize>) -> Seq<Entry> {
    Seq::new(stack.len(), |i: int| Entry::Page(stack[i]))
}

proof fn lemma_flat_pages(stack: Seq<usize>, placeholder: Option<usize>)
    requires
        placeholder is Some ==> !stack.contains(placeholder->0),
    ensures
        pages_of(flat(stack), placeholder) == stack,
    decreases stack.len(),
{
    if stack.len() > 0 {
        let front = stack.drop_last();
        assert forall|vc: usize| front.contains(vc) implies stack.contains(vc) by {
            let i = choose|i: int| 0 <= i < front.len() && front[i] == vc;
            assert(stack[i] == vc);
        }
        lemma_flat_pages(front, placeholder);
        assert(flat(stack).drop_last() =~= flat(front));
        assert(stack[stack.len() - 1] == stack.last());
        assert(front + seq![stack.last()] =~= stack);
    } else {
        assert(flat(stack) =~= Seq::<Entry>::empty());
        assert(pages_of(flat(stack), placeholder) =~= stack);
    }
}

/// A rebuild shows the same pages in the columns the destination calls for. On an expanded host with
/// a content list there is a supplementary column afterwards exactly when the list is shown. On any
/// host the detail pages are the same in the same order, and the sidebar's root, the back guard and
/// the container are carried over. A secondary column that was rebuilt beside a list is never bare.
/// The placeholder, being fresh, is none of the pages.
pub proof fn law_rehost_shows_the_same_pages(
    before: Shown,
    native: bool,
    plan: Option<Rehost>,
    fresh: Fresh,
)
    requires
        before.planned(native, plan),
        !before.details().contains(fresh.placeholder),
    ensures
        ({
            let after = before.carried_out(plan, fresh);
            &&& before.adapts(native) ==> after.host.split is Some
                && after.host.split->0.supplementary_nav is Some == before.host.split->0.list_shown
            &&& after.details() == before.details()
            &&& after.sidebar == before.sidebar
            &&& after.guarded == before.guarded
            &&& after.host.split is Some == before.host.split is Some
            &&& before.host.split is Some ==> after.host.split->0.container
                == before.host.split->0.container
            &&& plan matches Some(p) ==> p.secondary_stack(fresh) == never_bare(
                before.details(),
                after.host.blank_spec(),
            )
        }),
{
    let after = before.carried_out(plan, fresh);
    match plan {
        None => {},
        Some(plan) => {
            let stack = plan.secondary_stack(fresh);
            assert(plan.secondary@ == before.details());
            if plan.config.seed_secondary {
                assert(flat(stack).drop_last() =~= Seq::<Entry>::empty());
                reveal_with_fuel(pages_of, 2);
                assert(pages_of(flat(stack), Some(fresh.placeholder)) =~= Seq::<usize>::empty());
                assert(plan.secondary@ =~= Seq::<usize>::empty());
            } else {
                lemma_flat_pages(stack, after.host.placeholder_spec());
            }
        },
    }
}

/// A second rebuild changes nothing, whatever controllers are at hand for it.
pub proof fn law_second_rehost_changes_nothing(
    before: Shown,
    native: bool,
    plan: Option<Rehost>,
    fresh: Fresh,
    again: Option<Rehost>,
    other: Fresh,
)
    requires
        before.planned(native, plan),
        before.carried_out(plan, fresh).planned(native, again),
    ensures
        again is None,
        before.carried_out(plan, fresh).carried_out(again, other) == before.carried_out(plan, fresh),
{
}

/// Only an expanded host with a content list is ever rebuilt: any other stays as it is.
pub proof fn law_other_hosts_are_left_alone(
    before: Shown,
    native: bool,
    plan: Option<Rehost>,
    fresh: Fresh,
)
    requires
        !before.adapts(native),
        before.planned(native, plan),
    ensures
        plan is None,
        before.carried_out(plan, fresh) == before,
{
}

/// A rebuild keeps what the host remembers: its node, its container, the content list's page and
/// width, and whether the list is shown.
pub proof fn law_rehost_keeps_the_host(host: NavHost, config: SplitConfig, fresh: Fresh)
    requires
        host.split is Some,
    ensures
        ({
            let after = host.after_rehost(config, fresh);
            &&& after.host_node == host.host_node
            &&& after.collapsed == host.collapsed
            &&& after.split is Some
            &&& after.split->0.container == host.split->0.container
            &&& after.split->0.list_vc == host.split->0.list_vc
            &&& after.split->0.list_width == host.split->0.list_width
            &&& after.split->0.list_shown == host.split->0.list_shown
        }),
{
}

/// The stack that owns the pages is the sidebar's while a split is collapsed, and the host's own
/// otherwise.
pub proof fn law_pages_are_on_the_active_stack(h: &NavHost, r: usize)
    requires
        call_ensures(NavHost::active_nav, (h,), r),
    ensures
        h.split matches Some(parts) ==> h.collapsed ==> r == parts.primary_nav,
        h.split is None || !h.collapsed ==> r == h.nav,
{
}

/// A host has three columns exactly when it has a list's stack; its blank root is a page of none, and is
/// held by an empty detail column beside a list only.
pub proof fn law_blank_root_is_held_beside_a_list(
    h: &NavHost,
    triple: bool,
    ph: Option<usize>,
    blank: Option<usize>,
    outer: usize,
)
    requires
        call_ensures(NavHost::is_collapsed_triple, (h,), triple),
        call_ensures(NavHost::placeholder, (h,), ph),
        call_ensures(NavHost::blank, (h,), blank),
        call_ensures(NavHost::controller, (h,), outer),
    ensures
        h.split is None ==> !triple && ph is None && blank is None && outer == h.nav,
        h.split matches Some(parts) ==> {
            &&& triple <==> h.collapsed && parts.supplementary_nav is Some
            &&& ph == parts.secondary_placeholder
            &&& h.collapsed || parts.supplementary_nav is None ==> blank is None
            &&& !h.collapsed && parts.supplementary_nav is Some ==> blank == ph
            &&& outer == parts.split_vc
        },
{
}

/// A collapsing split shows what the user was looking at: the detail while one is pushed, else the list
/// of the destination, else the sidebar. A plain stack has no say.
pub proof fn law_collapse_keeps_what_was_seen(
    h: &NavHost,
    secondary: &Vec<Entry>,
    r: Option<Column>,
    details: Vec<usize>,
)
    requires
        call_ensures(NavHost::top_column_for_collapsing, (h, secondary), r),
        call_ensures(day_pages, (secondary, h.placeholder_spec()), details),
    ensures
        h.split is None ==> r is None,
        h.split matches Some(parts) ==> {
            &&& details@.len() > 0 ==> r == Some(Column::Secondary)
            &&& details@.len() == 0 && parts.supplementary_nav is Some && parts.list_shown ==> r == Some(
                Column::Supplementary,
            )
            &&& details@.len() == 0 && !(parts.supplementary_nav is Some && parts.list_shown) ==> r
                == Some(Column::Primary)
        },
{
}

/// A collapse or expansion is remembered and reported to the host's node as what it is. On a collapse of
/// two columns that left details behind, they go on top of the sidebar, none lost; after an expansion
/// the host is looked at again.
pub proof fn law_presentation_is_reported(
    h: &mut NavHost,
    expanded: bool,
    primary: Vec<usize>,
    secondary: Vec<usize>,
    r: Option<SplitChange>,
)
    requires
        call_ensures(NavHost::presentation_changed, (h, expanded, primary, secondary), r),
    ensures
        old(h).split is None ==> r is None && *final(h) == *old(h),
        old(h).split matches Some(parts) ==> {
            &&& final(h).collapsed == !expanded
            &&& final(h).split == old(h).split && final(h).nav == old(h).nav
            &&& r matches Some(change)
            &&& change.node == old(h).host_node
            &&& expanded ==> change.presentation == Presentation::Split && change.strand is None
            &&& !expanded ==> change.presentation == Presentation::Stack
            &&& change.rehost == expanded
            &&& !expanded && parts.supplementary_nav is None && primary@.len() <= 1 && secondary@.len()
                > 0 ==> (change.strand matches Some(s) && s.primary == parts.primary_nav && s.secondary
                == old(h).nav && s.merged@ == primary@ + secondary@)
            &&& parts.supplementary_nav is Some || primary@.len() > 1 || secondary@.len() == 0
                ==> change.strand is None
        },
{
}

/// A rebuild is planned exactly on an expanded host whose columns are not those its destination calls
/// for. It empties every stack of the old host, gives each column its own pages, the list's column only
/// to a destination that shows the list, and seeds an empty detail column beside it.
pub proof fn law_rebuild_is_planned_where_columns_differ(
    h: &NavHost,
    native: bool,
    sidebar: Option<usize>,
    secondary: &Vec<Entry>,
    guarded: bool,
    r: Option<Rehost>,
    details: Vec<usize>,
)
    requires
        call_ensures(NavHost::rehost, (h, native, sidebar, secondary, guarded), r),
        call_ensures(day_pages, (secondary, h.placeholder_spec()), details),
    ensures
        h.split is None || h.collapsed || native ==> r is None,
        h.split matches Some(parts) ==> {
            &&& parts.list_width is None ==> r is None
            &&& parts.list_shown == parts.supplementary_nav is Some ==> r is None
            &&& parts.list_width is Some && !h.collapsed && !native && parts.list_shown
                != parts.supplementary_nav is Some ==> (r matches Some(plan) && {
                &&& plan.old_split == parts.split_vc
                &&& plan.container == parts.container
                &&& plan.config.triple == parts.list_shown
                &&& plan.config.list_width == parts.list_width
                &&& plan.config.seed_secondary <==> parts.list_shown && details@.len() == 0
                &&& plan.secondary@ == details@
                &&& sidebar matches Some(vc) ==> plan.primary@ == seq![vc]
                &&& sidebar is None ==> plan.primary@.len() == 0
                &&& !parts.list_shown || parts.list_vc is None ==> plan.supplementary@.len() == 0
                &&& parts.list_shown ==> (parts.list_vc matches Some(vc) ==> plan.supplementary@ == seq![
                    vc,
                ])
                &&& plan.guarded == guarded
                &&& parts.supplementary_nav is None ==> plan.emptied@ == seq![parts.primary_nav, h.nav]
                &&& parts.supplementary_nav matches Some(snav) ==> plan.emptied@ == seq![
                    parts.primary_nav,
                    snav,
                    h.nav,
                ]
            })
        },
{
    match h.split {
        Some(parts) => match parts.supplementary_nav {
            Some(snav) => {
                assert(seq![parts.primary_nav] + one(parts.supplementary_nav) + seq![h.nav] =~= seq![
                    parts.primary_nav,
                    snav,
                    h.nav,
                ]);
            },
            None => {
                assert(seq![parts.primary_nav] + one(parts.supplementary_nav) + seq![h.nav] =~= seq![
                    parts.primary_nav,
                    h.nav,
                ]);
            },
        },
        None => {},
    }
}

/// A split is made of the controllers at hand: a list's stack and a blank root exactly where it has three
/// columns. The rebuilt host is that split from then on.
pub proof fn law_split_is_made_of_its_controllers(
    h: &mut NavHost,
    config: SplitConfig,
    fresh: Fresh,
    built: SplitBuild,
)
    requires
        call_ensures(SplitConfig::build, (&config, fresh), built),
        call_ensures(NavHost::rehosted, (h, config, fresh), ()),
    ensures
        built.split_vc == fresh.split_vc && built.primary_nav == fresh.primary_nav,
        config.triple ==> built.supplementary_nav == Some(fresh.supplementary_nav)
            && built.secondary_placeholder == Some(fresh.placeholder),
        !config.triple ==> built.supplementary_nav is None && built.secondary_placeholder is None,
        final(h).nav == fresh.secondary_nav,
        old(h).split matches Some(parts) ==> (final(h).split matches Some(now) && {
            &&& now.split_vc == built.split_vc
            &&& now.primary_nav == built.primary_nav
            &&& now.supplementary_nav == built.supplementary_nav
            &&& now.secondary_placeholder == built.secondary_placeholder
            &&& now.container == parts.container
            &&& now.list_shown == parts.list_shown
            &&& now.list_vc == parts.list_vc
        }),
        final(h).collapsed == old(h).collapsed && final(h).host_node == old(h).host_node,
{
}

/// A first split has the list's column exactly where the app declares a list and shows it, and keeps the
/// list's width.
pub proof fn law_first_split_has_the_lists_column(
    list_width: Option<Scalar>,
    shown: bool,
    r: SplitConfig,
)
    requires
        call_ensures(first_split, (list_width, shown), r),
    ensures
        r.triple <==> list_width is Some && shown,
        r.seed_secondary <==> r.triple,
        r.list_width == list_width,
{
}

/// The columns are laid out once they have settled: the sidebar's, the detail's, and the split.
pub proof fn law_settled_columns_are_laid_out(h: &NavHost, r: Vec<usize>)
    requires
        call_ensures(NavHost::settle_columns, (h,), r),
    ensures
        h.split is None ==> r@.len() == 0,
        h.split matches Some(parts) ==> r@.len() == 3 && r@[0] == parts.primary_nav && r@[1] == h.nav
            && r@[2] == parts.split_vc,
{
}

/// A host's title patch retitles the page on top, its guard patch guards the stack that owns the pages,
/// and a change of the list is remembered and acted on: by another host while expanded, by its columns
/// while a host of three is collapsed. Every other patch asks nothing.
pub proof fn law_host_does_what_it_is_patched_to(
    titled: &mut NavHost,
    guarded: &mut NavHost,
    listed: &mut NavHost,
    other: &mut NavHost,
    title: String,
    on: bool,
    rest: NavPatch,
    top: Option<usize>,
    a: NavAct,
    b: NavAct,
    c: NavAct,
    d: NavAct,
    active: usize,
)
    requires
        call_ensures(NavHost::patch, (titled, NavPatch::Title(title), top), a),
        call_ensures(NavHost::patch, (guarded, NavPatch::GuardTop(on), top), b),
        call_ensures(NavHost::patch, (listed, NavPatch::ListVisible(on), top), c),
        !(rest is Title) && !(rest is GuardTop) && !(rest is ListVisible),
        call_ensures(NavHost::patch, (other, rest, top), d),
        call_ensures(NavHost::active_nav, (&*old(guarded),), active),
    ensures
        top matches Some(vc) ==> a == NavAct::Title(vc, title),
        top is None ==> a is Nothing,
        b == NavAct::Guard(active, on),
        !old(listed).collapsed ==> c is Column,
        old(listed).collapsed && old(listed).split is None ==> c is Nothing,
        old(listed).split matches Some(parts) ==> {
            &&& final(listed).split matches Some(now) && now == (SplitParts { list_shown: on, ..parts })
            &&& old(listed).collapsed && parts.supplementary_nav is Some ==> c == (NavAct::TripleList {
                svc: parts.split_vc,
                primary: parts.primary_nav,
                show: on,
            })
            &&& old(listed).collapsed && parts.supplementary_nav is None ==> c is Nothing
        },
        d is Nothing,
        *final(titled) == *old(titled) && *final(guarded) == *old(guarded) && *final(other) == *old(other),
{
}

} // verus!
