//! Creating a directory with all the directories above it, and the scopes
//! in which files and directories are open.

use crate::io::{Error, Result};
use crate::path::{is_path_text, lemma_subrange_is_path_text, Path, PathBuf, SEPARATOR};
use vstd::prelude::*;
use vstd::slice::slice_subrange;

verus! {

/// The directories that are created for the path `s`, in order, from the
/// index `from` on: for each separator of `s` the text before it, and at the
/// end `s` itself.
pub open spec fn dirs_from(s: Seq<u8>, from: int) -> Seq<Seq<u8>>
    decreases s.len() - from,
{
    if from < 0 || from >= s.len() {
        seq![s]
    } else if s[from] == SEPARATOR {
        seq![s.take(from)] + dirs_from(s, from + 1)
    } else {
        dirs_from(s, from + 1)
    }
}

/// The directories that are created for the path `s`, in order.
pub open spec fn dirs_to_create(s: Seq<u8>) -> Seq<Seq<u8>> {
    dirs_from(s, 0)
}

/// The directories that are still to be created on the way to a path.
#[derive(Clone, Copy, Debug)]
pub struct CreateDirAll<'a> {
    path: &'a [u8],
    // where the search for the next separator goes on
    next: usize,
    // whether the path itself was handed out
    done: bool,
}

impl<'a> View for CreateDirAll<'a> {
    type V = Seq<Seq<u8>>;

    /// The directories that are still to be created, in order.
    closed spec fn view(&self) -> Seq<Seq<u8>> {
        if self.done {
            Seq::empty()
        } else {
            dirs_from(self.path@, self.next as int)
        }
    }
}

impl<'a> CreateDirAll<'a> {
    #[verifier::type_invariant]
    pub closed spec fn well_formed(self) -> bool {
        &&& is_path_text(self.path@)
        &&& self.next <= self.path@.len()
    }

    /// The directories to create so that there is a directory at `path`:
    /// see [`dirs_to_create`].
    pub fn new(path: &Path<'a>) -> (r: CreateDirAll<'a>)
        ensures
            r@ == dirs_to_create(path@),
    {
        CreateDirAll { path: path.as_bytes(), next: 0, done: false }
    }

    /// The directory to create next, if one is left.
    pub fn next_dir(&mut self) -> (r: Option<PathBuf>)
        ensures
            old(self)@.len() == 0 ==> r.is_none() && final(self)@ == old(self)@,
            old(self)@.len() > 0 ==> r.is_some() && r.unwrap()@ == old(self)@[0] && final(self)@
                == old(self)@.skip(1),
    {
        proof {
            use_type_invariant(&*self);
        }
        if self.done {
            return None;
        }
        let path = self.path;
        let n = path.len();
        let mut i = self.next;
        while i < n && path[i] != SEPARATOR
            invariant
                n == path@.len(),
                self.next <= i <= n,
                dirs_from(path@, i as int) == dirs_from(path@, self.next as int),
            decreases n - i,
        {
            i = i + 1;
        }
        if i < n {
            let dir = slice_subrange(path, 0, i);
            proof {
                lemma_subrange_is_path_text(path@, 0, i as int);
                assert(dir@ == path@.take(i as int));
                assert((seq![path@.take(i as int)] + dirs_from(path@, i + 1)).skip(1) =~= dirs_from(
                    path@,
                    i + 1,
                ));
            }
            self.next = i + 1;
            Some(PathBuf::from_text(dir))
        } else {
            proof {
                assert(seq![path@].skip(1) =~= Seq::<Seq<u8>>::empty());
            }
            self.done = true;
            Some(PathBuf::from_text(path))
        }
    }
}

/// The path itself is the last directory that is created for it, and the
/// only one where it holds no separator.
pub proof fn lemma_dirs_end_in_path(s: Seq<u8>, from: int)
    requires
        0 <= from <= s.len(),
    ensures
        dirs_from(s, from).len() >= 1,
        dirs_from(s, from).last() == s,
    decreases s.len() - from,
{
    if from < s.len() {
        lemma_dirs_end_in_path(s, from + 1);
    }
}

/// Every directory that is created for a path is a start of that path.
pub proof fn lemma_dirs_are_prefixes(s: Seq<u8>, from: int, k: int)
    requires
        0 <= from <= s.len(),
        0 <= k < dirs_from(s, from).len(),
    ensures
        dirs_from(s, from)[k].len() <= s.len(),
        dirs_from(s, from)[k] == s.take(dirs_from(s, from)[k].len() as int),
    decreases s.len() - from,
{
    if from >= s.len() {
        assert(s.take(s.len() as int) =~= s);
    } else if s[from] == SEPARATOR {
        if k == 0 {
            assert(s.take(from).take(from) =~= s.take(from));
        } else {
            lemma_dirs_are_prefixes(s, from + 1, k - 1);
        }
    } else {
        lemma_dirs_are_prefixes(s, from + 1, k);
    }
}

/// What creating a directory with its parents makes of the result of
/// creating one directory: that the directory was there already is no error.
pub fn tolerate_existing(created: Result<()>) -> (r: Result<()>)
    ensures
        match created {
            Ok(_) => r.is_ok(),
            Err(e) => if e == Error::entry_already_existed() {
                r.is_ok()
            } else {
                r == Err::<(), Error>(e)
            },
        },
{
    match created {
        Ok(_) => Ok(()),
        Err(error) => {
            if error == Error::entry_already_existed() {
                Ok(())
            } else {
                Err(error)
            }
        },
    }
}

/// The result of a scope in which a file or a directory was open: what
/// happened inside, unless closing failed, which then is the result.
pub fn closed_scope<R>(inside: Result<R>, closed: Result<()>) -> (r: Result<R>)
    ensures
        match closed {
            Ok(_) => r == inside,
            Err(e) => r == Err::<R, Error>(e),
        },
{
    match closed {
        Ok(_) => inside,
        Err(e) => Err(e),
    }
}

/// The result of a call that runs a callback at most once and hands its
/// result back beside its own: an error of the call itself comes first, and a
/// callback that did not run stands for an I/O error.
pub fn callback_result<R>(called: Result<()>, inside: Option<R>) -> (r: Result<R>)
    ensures
        match called {
            Err(e) => r == Err::<R, Error>(e),
            Ok(_) => match inside {
                Some(value) => r == Ok::<R, Error>(value),
                None => r == Err::<R, Error>(Error::io()),
            },
        },
{
    match called {
        Err(e) => Err(e),
        Ok(_) => match inside {
            Some(value) => Ok(value),
            None => Err(Error::io()),
        },
    }
}

} // verus!
