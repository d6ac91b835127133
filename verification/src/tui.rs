//! Navigation state of the interactive screens.
use vstd::prelude::*;
use std::rc::Rc;
use crate::common::DeepClone;
use crate::registry::BatteryPackDetail;

verus! {

/// Advance or retreat a wrapping index within `0..count`; nothing moves when
/// `count` is zero.
pub fn wrapping_nav(index: &mut usize, count: usize, forward: bool)
    requires
        count > 0 && forward ==> *old(index) + 1 <= usize::MAX,
        count > 0 && !forward ==> *old(index) + count <= usize::MAX,
    ensures
        count == 0 ==> *final(index) == *old(index),
        count > 0 && forward ==> *final(index) == (*old(index) + 1) % (count as int),
        count > 0 && !forward ==> *final(index) == (*old(index) + count - 1) % (count as int),
        count > 0 ==> *final(index) < count,
{
    if count > 0 {
        *index = if forward {
            (*index + 1) % count
        } else {
            (*index + count - 1) % count
        };
    }
}

/// Moving forward then back, or back then forward, returns to the same index.
pub proof fn law_wrapping_nav_inverse(index: int, count: int)
    requires
        0 <= index < count,
    ensures
        ((index + 1) % count + count - 1) % count == index,
        ((index + count - 1) % count + 1) % count == index,
{
    if index + 1 == count {
        assert((index + 1) % count == 0) by (nonlinear_arith)
            requires index + 1 == count, count > 0;
        assert((count - 1) % count == index) by (nonlinear_arith)
            requires index + 1 == count, count > 0;
    } else {
        assert((index + 1) % count == index + 1) by (nonlinear_arith)
            requires 0 <= index + 1 < count;
        assert((index + 1 + count - 1) % count == index) by (nonlinear_arith)
            requires 0 <= index < count;
    }
    if index == 0 {
        assert((index + count - 1) % count == count - 1) by (nonlinear_arith)
            requires index == 0, count > 0;
        assert((count - 1 + 1) % count == 0) by (nonlinear_arith)
            requires count > 0;
    } else {
        assert((index + count - 1) % count == index - 1) by (nonlinear_arith)
            requires 0 < index < count;
        assert((index - 1 + 1) % count == index) by (nonlinear_arith)
            requires 0 < index < count;
    }
}

/// Clamped (non-wrapping) movement of a list selection within `0..count`.
pub fn list_nav(selected: Option<usize>, count: usize, forward: bool) -> (r: Option<usize>)
    ensures
        selected is None ==> r is None,
        selected matches Some(s) ==> r == Some(
            if forward && s + 1 < count { (s + 1) as usize }
            else if !forward && s > 0 { (s - 1) as usize }
            else { s },
        ),
{
    match selected {
        Some(s) => {
            if forward {
                if count > 0 && s < count - 1 {
                    Some(s + 1)
                } else {
                    Some(s)
                }
            } else if s > 0 {
                Some(s - 1)
            } else {
                Some(s)
            }
        },
        None => None,
    }
}

/// A selectable item in the detail view.
#[derive(Clone, Debug)]
pub enum DetailItem {
    /// A crate dependency.
    Crate(String),
    /// An extended battery pack.
    Extends(String),
    /// A template, with its path in the repository when known.
    Template { _path: String, repo_path: Option<String> },
    /// An example, with its path in the repository when known.
    Example { _name: String, repo_path: Option<String> },
    /// Open on crates.io.
    ActionOpenCratesIo,
    /// Add to project.
    ActionAddToProject,
    /// Create a new project.
    ActionNewProject,
}

/// The content of a detail item: a tag, the string it carries, and its
/// path in the repository when it has one.
pub open spec fn item_view(i: DetailItem) -> (int, Seq<char>, Option<Seq<char>>) {
    match i {
        DetailItem::Crate(s) => (0, s@, None),
        DetailItem::Extends(s) => (1, s@, None),
        DetailItem::Template { _path, repo_path } => (2, _path@, repo_path.deep_view()),
        DetailItem::Example { _name, repo_path } => (3, _name@, repo_path.deep_view()),
        DetailItem::ActionOpenCratesIo => (4, Seq::empty(), None),
        DetailItem::ActionAddToProject => (5, Seq::empty(), None),
        DetailItem::ActionNewProject => (6, Seq::empty(), None),
    }
}

/// The items of a detail view, in display order.
pub open spec fn items_spec(d: BatteryPackDetail) -> Seq<(int, Seq<char>, Option<Seq<char>>)> {
    d.crates.deep_view().map_values(|c: Seq<char>| (0int, c, None::<Seq<char>>))
        + d.extends.deep_view().map_values(|c: Seq<char>| (1int, c, None::<Seq<char>>))
        + d.templates@.map_values(|t: crate::registry::TemplateInfo| (2int, t.path@, t.repo_path.deep_view()))
        + d.examples@.map_values(|e: crate::registry::ExampleInfo| (3int, e.name@, e.repo_path.deep_view()))
        + seq![(4int, Seq::<char>::empty(), None::<Seq<char>>), (5int, Seq::<char>::empty(), None::<Seq<char>>), (6int, Seq::<char>::empty(), None::<Seq<char>>)]
}

/// The detail screen: a pack's details and the selected item.
pub struct DetailScreen {
    pub detail: Rc<BatteryPackDetail>,
    /// Index into `selectable_items()`.
    pub selected_index: usize,
    pub came_from_list: bool,
    pub in_project: bool,
    pub is_installed: bool,
}

impl DetailScreen {
    /// Total count of selectable items: crates, extends, templates,
    /// examples, and three actions.
    pub fn item_count(&self) -> (n: usize)
        requires
            self.detail.crates@.len() + self.detail.extends@.len() + self.detail.templates@.len()
                + self.detail.examples@.len() + 3 <= usize::MAX,
        ensures
            n == items_spec(*self.detail).len(),
    {
        self.detail.crates.len() + self.detail.extends.len() + self.detail.templates.len()
            + self.detail.examples.len() + 3
    }

    /// All selectable items in order: crates, extends, templates, examples,
    /// then the actions.
    pub fn selectable_items(&self) -> (items: Vec<DetailItem>)
        ensures
            items@.map_values(|i: DetailItem| item_view(i)) == items_spec(*self.detail),
    {
        let d = &*self.detail;
        let mut items: Vec<DetailItem> = Vec::new();
        let mut i: usize = 0;
        while i < d.crates.len()
            invariant
                i <= d.crates@.len(),
                items@.map_values(|x: DetailItem| item_view(x)) == d.crates.deep_view().take(i as int).map_values(|c: Seq<char>| (0int, c, None::<Seq<char>>)),
            decreases d.crates.len() - i,
        {
            let ghost before = items@;
            items.push(DetailItem::Crate(d.crates[i].clone()));
            assert(d.crates.deep_view().take(i + 1) =~= d.crates.deep_view().take(i as int).push(d.crates@[i as int]@));
            assert(items@.map_values(|x: DetailItem| item_view(x)) =~= before.map_values(|x: DetailItem| item_view(x)).push(item_view(items@.last())));
            assert(items@.map_values(|x: DetailItem| item_view(x)) =~= d.crates.deep_view().take(i + 1).map_values(|c: Seq<char>| (0int, c, None::<Seq<char>>)));
            i += 1;
        }
        assert(d.crates.deep_view().take(i as int) =~= d.crates.deep_view());
        let ghost s1 = items@.map_values(|x: DetailItem| item_view(x));
        let mut i: usize = 0;
        while i < d.extends.len()
            invariant
                i <= d.extends@.len(),
                items@.map_values(|x: DetailItem| item_view(x)) == s1 + d.extends.deep_view().take(i as int).map_values(|c: Seq<char>| (1int, c, None::<Seq<char>>)),
            decreases d.extends.len() - i,
        {
            let ghost before = items@;
            items.push(DetailItem::Extends(d.extends[i].clone()));
            assert(d.extends.deep_view().take(i + 1) =~= d.extends.deep_view().take(i as int).push(d.extends@[i as int]@));
            assert(items@.map_values(|x: DetailItem| item_view(x)) =~= before.map_values(|x: DetailItem| item_view(x)).push(item_view(items@.last())));
            assert(items@.map_values(|x: DetailItem| item_view(x)) =~= s1 + d.extends.deep_view().take(i + 1).map_values(|c: Seq<char>| (1int, c, None::<Seq<char>>)));
            i += 1;
        }
        assert(d.extends.deep_view().take(i as int) =~= d.extends.deep_view());
        let ghost s2 = items@.map_values(|x: DetailItem| item_view(x));
        let mut i: usize = 0;
        while i < d.templates.len()
            invariant
                i <= d.templates@.len(),
                items@.map_values(|x: DetailItem| item_view(x)) == s2 + d.templates@.take(i as int).map_values(|t: crate::registry::TemplateInfo| (2int, t.path@, t.repo_path.deep_view())),
            decreases d.templates.len() - i,
        {
            let ghost before = items@;
            items.push(DetailItem::Template {
                _path: d.templates[i].path.clone(),
                repo_path: d.templates[i].repo_path.deep_clone(),
            });
            assert(d.templates@.take(i + 1) =~= d.templates@.take(i as int).push(d.templates@[i as int]));
            assert(items@.map_values(|x: DetailItem| item_view(x)) =~= before.map_values(|x: DetailItem| item_view(x)).push(item_view(items@.last())));
            assert(items@.map_values(|x: DetailItem| item_view(x)) =~= s2 + d.templates@.take(i + 1).map_values(|t: crate::registry::TemplateInfo| (2int, t.path@, t.repo_path.deep_view())));
            i += 1;
        }
        assert(d.templates@.take(i as int) =~= d.templates@);
        let ghost s3 = items@.map_values(|x: DetailItem| item_view(x));
        let mut i: usize = 0;
        while i < d.examples.len()
            invariant
                i <= d.examples@.len(),
                items@.map_values(|x: DetailItem| item_view(x)) == s3 + d.examples@.take(i as int).map_values(|e: crate::registry::ExampleInfo| (3int, e.name@, e.repo_path.deep_view())),
            decreases d.examples.len() - i,
        {
            let ghost before = items@;
            items.push(DetailItem::Example {
                _name: d.examples[i].name.clone(),
                repo_path: d.examples[i].repo_path.deep_clone(),
            });
            assert(d.examples@.take(i + 1) =~= d.examples@.take(i as int).push(d.examples@[i as int]));
            assert(items@.map_values(|x: DetailItem| item_view(x)) =~= before.map_values(|x: DetailItem| item_view(x)).push(item_view(items@.last())));
            assert(items@.map_values(|x: DetailItem| item_view(x)) =~= s3 + d.examples@.take(i + 1).map_values(|e: crate::registry::ExampleInfo| (3int, e.name@, e.repo_path.deep_view())));
            i += 1;
        }
        assert(d.examples@.take(i as int) =~= d.examples@);
        let ghost s4 = items@.map_values(|x: DetailItem| item_view(x));
        items.push(DetailItem::ActionOpenCratesIo);
        items.push(DetailItem::ActionAddToProject);
        items.push(DetailItem::ActionNewProject);
        assert(items@.map_values(|x: DetailItem| item_view(x)) =~= s4 + seq![(4int, Seq::<char>::empty(), None::<Seq<char>>), (5int, Seq::<char>::empty(), None::<Seq<char>>), (6int, Seq::<char>::empty(), None::<Seq<char>>)]);
        items
    }

    /// The selected item, if the index is in range.
    pub fn selected_item(&self) -> (r: Option<DetailItem>)
        ensures
            self.selected_index < items_spec(*self.detail).len() ==> r is Some && item_view(r->0)
                == items_spec(*self.detail)[self.selected_index as int],
            self.selected_index >= items_spec(*self.detail).len() ==> r is None,
    {
        let items = self.selectable_items();
        proof {
            assert(items@.len() == items_spec(*self.detail).len());
        }
        if self.selected_index < items.len() {
            let ghost iv = items@.map_values(|i: DetailItem| item_view(i));
            assert(iv[self.selected_index as int] == item_view(items@[self.selected_index as int]));
            Some(items[self.selected_index].clone_item())
        } else {
            None
        }
    }

    /// Select the next item, wrapping around.
    pub fn select_next(&mut self)
        requires
            old(self).selected_index + 1 <= usize::MAX,
            items_spec(*old(self).detail).len() <= usize::MAX,
        ensures
            *final(self) == (DetailScreen {
                selected_index: ((old(self).selected_index + 1) % (items_spec(*old(self).detail).len() as int)) as usize,
                ..*old(self)
            }),
    {
        let count = self.item_count();
        wrapping_nav(&mut self.selected_index, count, true);
    }

    /// Select the previous item, wrapping around.
    pub fn select_prev(&mut self)
        requires
            old(self).selected_index + items_spec(*old(self).detail).len() <= usize::MAX,
            items_spec(*old(self).detail).len() <= usize::MAX,
        ensures
            *final(self) == (DetailScreen {
                selected_index: ((old(self).selected_index + items_spec(*old(self).detail).len() - 1) % (items_spec(*old(self).detail).len() as int)) as usize,
                ..*old(self)
            }),
    {
        let count = self.item_count();
        wrapping_nav(&mut self.selected_index, count, false);
    }
}

impl DetailItem {
    /// A copy of the item.
    pub fn clone_item(&self) -> (r: DetailItem)
        ensures
            item_view(r) == item_view(*self),
    {
        match self {
            DetailItem::Crate(s) => DetailItem::Crate(s.clone()),
            DetailItem::Extends(s) => DetailItem::Extends(s.clone()),
            DetailItem::Template { _path, repo_path } => DetailItem::Template {
                _path: _path.clone(),
                repo_path: repo_path.deep_clone(),
            },
            DetailItem::Example { _name, repo_path } => DetailItem::Example {
                _name: _name.clone(),
                repo_path: repo_path.deep_clone(),
            },
            DetailItem::ActionOpenCratesIo => DetailItem::ActionOpenCratesIo,
            DetailItem::ActionAddToProject => DetailItem::ActionAddToProject,
            DetailItem::ActionNewProject => DetailItem::ActionNewProject,
        }
    }
}

/// Which field of the new-project form has focus.
#[derive(Clone, Copy, PartialEq, Eq, Structural, Debug)]
pub enum FormField {
    Directory,
    ProjectName,
}

/// The new-project form.
pub struct FormScreen {
    pub battery_pack: String,
    /// If set, use this specific template.
    pub template: Option<String>,
    pub directory: String,
    pub project_name: String,
    pub focused_field: FormField,
    pub cursor_position: usize,
    /// The detail screen to return to on cancel.
    pub detail: Rc<BatteryPackDetail>,
    /// Selected index to restore when returning to detail.
    pub selected_index: usize,
    pub came_from_list: bool,
}

impl FormScreen {
    /// The text of the focused field.
    pub fn focused_field_mut(&mut self) -> (r: &mut String)
        ensures
            old(self).focused_field == FormField::Directory ==> *r == old(self).directory
                && *final(self) == (FormScreen { directory: *final(r), ..*old(self) }),
            old(self).focused_field == FormField::ProjectName ==> *r == old(self).project_name
                && *final(self) == (FormScreen { project_name: *final(r), ..*old(self) }),
    {
        match self.focused_field {
            FormField::Directory => &mut self.directory,
            FormField::ProjectName => &mut self.project_name,
        }
    }

    /// The byte length of the focused field.
    pub fn focused_field_len(&self) -> (n: usize)
        ensures
            n == (match self.focused_field {
                FormField::Directory => vstd::utf8::encode_utf8(self.directory@).len() as usize,
                FormField::ProjectName => vstd::utf8::encode_utf8(self.project_name@).len() as usize,
            }),
    {
        match self.focused_field {
            FormField::Directory => self.directory.as_str().len(),
            FormField::ProjectName => self.project_name.as_str().len(),
        }
    }
}

} // verus!
