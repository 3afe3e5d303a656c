//! The table of locally installed packages: package name to installed version.
use vstd::prelude::*;
use crate::package_file::{dir_pkgname, dir_version, is_package_dir, split_dir};
use crate::text::{chars_of, string_range, views};

verus! {

/// The table built from installation directory names `name-version-release`, in
/// order: a later directory of the same package name replaces an earlier one.
pub open spec fn installed_table(dirs: Seq<Seq<char>>) -> Map<Seq<char>, Seq<char>>
    decreases dirs.len(),
{
    if dirs.len() == 0 {
        Map::empty()
    } else {
        installed_table(dirs.drop_last()).insert(
            dir_pkgname(dirs.last()),
            dir_version(dirs.last()),
        )
    }
}

/// Versions of the installed packages, keyed by package name.
pub struct InstalledPackages {
    packages: Vec<(String, String)>,
    table: Ghost<Map<Seq<char>, Seq<char>>>,
}

impl View for InstalledPackages {
    type V = Map<Seq<char>, Seq<char>>;

    closed spec fn view(&self) -> Map<Seq<char>, Seq<char>> {
        self.table@
    }
}

impl InstalledPackages {
    /// The list holds each name once; each entry is in the table, with its
    /// version, and the table holds no other key.
    pub closed spec fn wf(&self) -> bool {
        &&& forall|i: int, j: int|
            0 <= i < self.packages@.len() && 0 <= j < self.packages@.len()
                && #[trigger] self.packages@[i].0@ == #[trigger] self.packages@[j].0@ ==> i == j
        &&& forall|k: Seq<char>| #[trigger]
            self.table@.contains_key(k) <==> exists|i: int|
                0 <= i < self.packages@.len() && #[trigger] self.packages@[i].0@ == k
        &&& forall|i: int|
            0 <= i < self.packages@.len() ==> self.table@[#[trigger] self.packages@[i].0@]
                == self.packages@[i].1@
    }

    /// Builds the table from the names of the installation directories.
    pub fn new(dir_names: &Vec<String>) -> (r: InstalledPackages)
        requires
            forall|i: int| 0 <= i < dir_names@.len() ==> is_package_dir(#[trigger] dir_names@[i]@),
        ensures
            r.wf(),
            r@ == installed_table(views(dir_names@)),
    {
        let mut r = InstalledPackages { packages: Vec::new(), table: Ghost(Map::empty()) };
        let mut i: usize = 0;
        while i < dir_names.len()
            invariant
                i <= dir_names@.len(),
                forall|j: int|
                    0 <= j < dir_names@.len() ==> is_package_dir(#[trigger] dir_names@[j]@),
                r.wf(),
                r@ == installed_table(views(dir_names@).take(i as int)),
            decreases dir_names@.len() - i,
        {
            let chars = chars_of(dir_names[i].as_str());
            assert(chars@.subrange(0, chars@.len() as int) =~= chars@);
            let (ver, _rel) = split_dir(&chars, chars.len()).unwrap();
            let name = string_range(&chars, 0, ver);
            let version = string_range(&chars, ver + 1, chars.len());
            r.insert(name, version);
            proof {
                let vs = views(dir_names@);
                assert(vs.take(i + 1).drop_last() =~= vs.take(i as int));
                assert(vs.take(i + 1).last() == dir_names@[i as int]@);
            }
            i = i + 1;
        }
        assert(views(dir_names@).take(i as int) =~= views(dir_names@));
        r
    }

    fn insert(&mut self, name: String, version: String)
        requires
            old(self).wf(),
        ensures
            final(self).wf(),
            final(self)@ == old(self)@.insert(name@, version@),
    {
        let mut i: usize = 0;
        while i < self.packages.len()
            invariant
                i <= self.packages@.len(),
                self.wf(),
                *self == *old(self),
                forall|j: int| 0 <= j < i ==> self.packages@[j].0@ != name@,
            decreases self.packages@.len() - i,
        {
            if self.packages[i].0 == name {
                let ghost table = self.table@.insert(name@, version@);
                let ghost old_packages = self.packages@;
                self.packages.set(i, (name, version));
                self.table = Ghost(table);
                assert(forall|j: int|
                    0 <= j < self.packages@.len() && j != i ==> self.packages@[j]
                        == old_packages[j]);
                assert(self.packages@[i as int].0@ == old_packages[i as int].0@);
                assert forall|k: Seq<char>| #[trigger]
                    self.table@.contains_key(k) implies exists|j: int|
                        0 <= j < self.packages@.len() && #[trigger] self.packages@[j].0@ == k by {
                    if k != name@ {
                        let j = choose|j: int|
                            0 <= j < old_packages.len() && #[trigger] old_packages[j].0@ == k;
                        assert(self.packages@[j].0@ == k);
                    }
                }
                assert forall|k: Seq<char>|
                    exists|j: int|
                        0 <= j < self.packages@.len() && #[trigger] self.packages@[j].0@
                            == k implies #[trigger] self.table@.contains_key(k) by {
                    let j = choose|j: int|
                        0 <= j < self.packages@.len() && #[trigger] self.packages@[j].0@ == k;
                    if j != i {
                        assert(old_packages[j].0@ == k);
                    }
                }
                assert forall|j: int| 0 <= j < self.packages@.len() implies self.table@[
                    #[trigger] self.packages@[j].0@] == self.packages@[j].1@ by {
                    if j != i {
                        assert(old_packages[j] == self.packages@[j]);
                        assert(old_packages[j].0@ != old_packages[i as int].0@);
                    }
                }
                return;
            }
            i = i + 1;
        }
        let ghost table = self.table@.insert(name@, version@);
        let ghost old_packages = self.packages@;
        self.packages.push((name, version));
        self.table = Ghost(table);
        assert(forall|j: int| 0 <= j < old_packages.len() ==> self.packages@[j] == old_packages[j]);
        assert(self.packages@[old_packages.len() as int].0@ == name@);
    }

    /// The installed version of package `pkgname`, if it is installed.
    pub fn package_version(&self, pkgname: &str) -> (r: Option<&str>)
        requires
            self.wf(),
        ensures
            match r {
                Some(v) => self@.contains_key(pkgname@) && v@ == self@[pkgname@],
                None => !self@.contains_key(pkgname@),
            },
    {
        let key = String::from_str(pkgname);
        let mut i: usize = 0;
        while i < self.packages.len()
            invariant
                i <= self.packages@.len(),
                self.wf(),
                key@ == pkgname@,
                forall|j: int| 0 <= j < i ==> self.packages@[j].0@ != pkgname@,
            decreases self.packages@.len() - i,
        {
            if self.packages[i].0 == key {
                return Some(self.packages[i].1.as_str());
            }
            i = i + 1;
        }
        None
    }
}

} // verus!
