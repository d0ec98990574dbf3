//! Entries of remote directories as the SFTP server lists them.

use vstd::prelude::*;
use vstd::string::*;
use crate::listing::{ListedEntry, stable_sorted_by};
use crate::text::{trim, trimmed};

verus! {

/// One entry of a remote directory listing.
#[derive(Clone, Debug)]
pub struct RemoteEntry {
    pub name: String,
    /// Full remote path of the entry.
    pub path: String,
    pub is_dir: bool,
    pub size: u64,
}

/// The plain contents of a remote entry.
pub struct RemoteEntryView {
    pub name: Seq<char>,
    pub path: Seq<char>,
    pub is_dir: bool,
    pub size: u64,
}

impl View for RemoteEntry {
    type V = RemoteEntryView;

    open spec fn view(&self) -> RemoteEntryView {
        RemoteEntryView { name: self.name@, path: self.path@, is_dir: self.is_dir, size: self.size }
    }
}

impl ListedEntry for RemoteEntry {
    open spec fn listed_is_dir(&self) -> bool {
        self.is_dir
    }

    open spec fn listed_name(&self) -> Seq<char> {
        self.name@
    }

    fn is_dir_flag(&self) -> (b: bool) {
        self.is_dir
    }

    fn name_str(&self) -> (s: &str) {
        self.name.as_str()
    }

    fn duplicate(&self) -> (r: Self) {
        RemoteEntry {
            name: self.name.clone(),
            path: self.path.clone(),
            is_dir: self.is_dir,
            size: self.size,
        }
    }
}

/// One item as the server's directory read returns it: the path's final
/// component (absent when the path has none), the full path, whether it is a
/// directory, and the size when the server reports one.
#[derive(Clone, Debug)]
pub struct RemoteDirItem {
    pub name: Option<String>,
    pub path: String,
    pub is_dir: bool,
    pub size: Option<u64>,
}

/// `name` is one of the directory's self and parent links.
pub open spec fn is_dot_link(name: Seq<char>) -> bool {
    name == seq!['.'] || name == seq!['.', '.']
}

/// The entries of a remote listing that are shown, in the order read: items
/// without a name and the `.` and `..` links are left out; a missing size counts
/// as zero.
pub open spec fn shown_remote(items: Seq<RemoteDirItem>) -> Seq<RemoteEntryView>
    decreases items.len(),
{
    if items.len() == 0 {
        Seq::empty()
    } else {
        let rest = shown_remote(items.drop_last());
        let it = items.last();
        match it.name {
            Some(n) => if is_dot_link(n@) {
                rest
            } else {
                rest.push(
                    RemoteEntryView {
                        name: n@,
                        path: it.path@,
                        is_dir: it.is_dir,
                        size: match it.size {
                            Some(s) => s,
                            None => 0,
                        },
                    },
                )
            },
            None => rest,
        }
    }
}

/// Whether a name is one of the `.` and `..` links.
pub fn is_dot_name(name: &str) -> (r: bool)
    ensures
        r == is_dot_link(name@),
{
    let n = name.unicode_len();
    if n == 1 {
        let c = name.get_char(0);
        assert(c == '.' ==> name@ =~= seq!['.']);
        c == '.'
    } else if n == 2 {
        let c0 = name.get_char(0);
        let c1 = name.get_char(1);
        assert(c0 == '.' && c1 == '.' ==> name@ =~= seq!['.', '.']);
        c0 == '.' && c1 == '.'
    } else {
        false
    }
}

/// The entries of a remote directory in listing order (see `sorted_for_listing`),
/// from the items the server returned.
pub fn list_dir_entries(items: Vec<RemoteDirItem>) -> (r: Vec<RemoteEntry>)
    ensures
        exists|kept: Seq<RemoteEntry>, perm: Seq<usize>|
            #![trigger stable_sorted_by(r@, kept, perm)]
            kept.map_values(|e: RemoteEntry| e@) == shown_remote(items@) && stable_sorted_by(r@, kept, perm),
{
    let mut kept: Vec<RemoteEntry> = Vec::new();
    let mut i: usize = 0;
    while i < items.len()
        invariant
            i <= items.len(),
            kept@.map_values(|e: RemoteEntry| e@) == shown_remote(items@.take(i as int)),
        decreases items.len() - i,
    {
        let it = &items[i];
        assert(items@.take(i as int + 1).drop_last() =~= items@.take(i as int));
        match &it.name {
            Some(n) => {
                if !is_dot_name(n.as_str()) {
                    let size = match it.size {
                        Some(s) => s,
                        None => 0,
                    };
                    let e = RemoteEntry { name: n.clone(), path: it.path.clone(), is_dir: it.is_dir, size };
                    let ghost before = kept@;
                    kept.push(e);
                    assert(kept@.map_values(|e: RemoteEntry| e@) =~= before.map_values(|e: RemoteEntry| e@).push(e@));
                }
            },
            None => {},
        }
        i = i + 1;
    }
    assert(items@.take(items.len() as int) =~= items@);
    crate::listing::sorted_for_listing(&kept)
}


/// The home directory named by the output of `echo $HOME` on the server: the
/// output without surrounding whitespace, or `/` when nothing is left.
pub fn home_dir_from_output(output: &str) -> (r: String)
    ensures
        r@ == if trimmed(output@).len() == 0 { seq!['/'] } else { trimmed(output@) },
{
    let t = trim(output);
    if t.as_str().unicode_len() == 0 {
        let mut r = String::new();
        r.push('/');
        assert(r@ =~= seq!['/']);
        r
    } else {
        t
    }
}

} // verus!
