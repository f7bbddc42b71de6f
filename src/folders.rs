//! Folder selections.
use vstd::prelude::*;
use vstd::string::*;
use crate::text::views;

verus! {

/// One folder to work in.
pub struct FolderSingle {
    dir: String,
}

impl FolderSingle {
    pub closed spec fn dir(&self) -> Seq<char> {
        self.dir@
    }

    pub fn new() -> (r: FolderSingle)
        ensures
            r.dir().len() == 0,
    {
        FolderSingle { dir: String::new() }
    }

    pub fn set_root_directory(&mut self, dir: &str) -> (r: &mut Self)
        ensures
            r.dir() == dir@,
            *final(self) == *final(r),
    {
        self.dir = String::from_str(dir);
        self
    }

    pub fn get_root_directory(&self) -> (r: &String)
        ensures
            r@ == self.dir(),
    {
        &self.dir
    }
}

/// Several folders to work in.
pub struct FolderArray {
    dirs: Vec<String>,
}

impl FolderArray {
    pub closed spec fn dirs(&self) -> Seq<Seq<char>> {
        views(self.dirs@)
    }

    pub fn new() -> (r: FolderArray)
        ensures
            r.dirs().len() == 0,
    {
        FolderArray { dirs: Vec::new() }
    }

    pub fn set_root_directory(&mut self, dirs: Vec<String>) -> (r: &mut Self)
        ensures
            r.dirs() == views(dirs@),
            *final(self) == *final(r),
    {
        self.dirs = dirs;
        self
    }

    pub fn get_root_directories(&self) -> (r: &Vec<String>)
        ensures
            views(r@) == self.dirs(),
    {
        &self.dirs
    }
}

} // verus!
