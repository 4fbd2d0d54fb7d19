//! The selector templates, one pair of pieces per folder role.
use vstd::prelude::*;

verus! {

/// The four folder roles that selectors and name tables are made for.
#[derive(Debug, Clone, Copy, PartialEq, Eq, Structural)]
pub enum FolderType {
    Normal,
    Expanded,
    Root,
    RootExpanded,
}

/// The part of a role's selector before the attribute matchers.
pub open spec fn prefix_of(t: FolderType) -> Seq<char> {
    match t {
        FolderType::Normal | FolderType::Root => ".list.collapsible.hidden>.tile"@,
        FolderType::Expanded | FolderType::RootExpanded => "*"@,
    }
}

/// The part of a role's selector from the type matcher on.
pub open spec fn suffix_of(t: FolderType) -> Seq<char> {
    match t {
        FolderType::Normal | FolderType::Expanded => "[data-type='dir']>.folder:before"@,
        FolderType::Root | FolderType::RootExpanded => "[data-type='root']>.folder:before"@,
    }
}

/// The selector of the role's own icon.
pub open spec fn role_selector(t: FolderType) -> Seq<char> {
    prefix_of(t) + suffix_of(t)
}

/// The selector of the role's icon for folders named `name`, in any case.
pub open spec fn named_selector(t: FolderType, name: Seq<char>) -> Seq<char> {
    prefix_of(t) + "[data-name='"@ + name + "'i]"@ + suffix_of(t)
}

/// The selector of the default file icon.
pub open spec fn file_selector_spec() -> Seq<char> {
    ".file_type_default:before"@
}

/// The selector of the default file icon.
pub fn file_selector() -> (r: String)
    ensures
        r@ == file_selector_spec(),
{
    String::from_str(".file_type_default:before")
}

impl FolderType {
    pub fn prefix(&self) -> (r: &'static str)
        ensures
            r@ == prefix_of(*self),
    {
        match self {
            FolderType::Normal | FolderType::Root => ".list.collapsible.hidden>.tile",
            FolderType::Expanded | FolderType::RootExpanded => "*",
        }
    }

    pub fn suffix(&self) -> (r: &'static str)
        ensures
            r@ == suffix_of(*self),
    {
        match self {
            FolderType::Normal | FolderType::Expanded => "[data-type='dir']>.folder:before",
            FolderType::Root | FolderType::RootExpanded => "[data-type='root']>.folder:before",
        }
    }

    /// The selector of the role's own icon.
    pub fn selector(&self) -> (r: String)
        ensures
            r@ == role_selector(*self),
    {
        let mut s = String::from_str(self.prefix());
        s.append(self.suffix());
        s
    }

    /// The selector of the role's icon for folders named `name`.
    pub fn named_selector(&self, name: &str) -> (r: String)
        ensures
            r@ == named_selector(*self, name@),
    {
        let mut s = String::from_str(self.prefix());
        s.append("[data-name='");
        s.append(name);
        s.append("'i]");
        s.append(self.suffix());
        s
    }
}

} // verus!
