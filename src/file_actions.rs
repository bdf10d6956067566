use vstd::prelude::*;

verus! {

/// Reading and writing whole files. The library does all its file work
/// through this trait, so that a store in memory can take the place of the
/// file system.
pub trait FileActions {
    /// The contents of the files, by path.
    spec fn files(&self) -> Map<Seq<char>, Seq<char>>;

    /// A store that never fails: every write succeeds, and a read succeeds
    /// exactly when the file is there.
    spec fn reliable(&self) -> bool;

    /// Replaces the contents of the file at `path` with `s`. No other file
    /// changes, whatever the outcome.
    fn write(&mut self, path: &str, s: &str) -> (r: Result<(), String>)
        ensures
            r is Ok ==> final(self).files() == old(self).files().insert(path@, s@),
            agree_except(final(self).files(), old(self).files(), path@),
            old(self).reliable() ==> r is Ok && final(self).reliable(),
    ;

    /// The contents of the file at `path`.
    fn read(&self, path: &str) -> (r: Result<String, String>)
        ensures
            r is Ok ==> self.files().contains_key(path@) && self.files()[path@] == r->Ok_0@,
            self.reliable() ==> (r is Ok <==> self.files().contains_key(path@)),
    ;
}

/// Two file maps that agree on every path but `p`.
pub open spec fn agree_except(a: Map<Seq<char>, Seq<char>>, b: Map<Seq<char>, Seq<char>>, p: Seq<char>) -> bool {
    forall|q: Seq<char>|
        q != p ==> (#[trigger] a.contains_key(q) == b.contains_key(q) && (a.contains_key(q) ==> a[q]
            == b[q]))
}

/// The files that a sequence of writes leaves behind: the last write to a
/// path wins.
pub open spec fn files_after(log: Seq<(Seq<char>, Seq<char>)>) -> Map<Seq<char>, Seq<char>>
    decreases log.len(),
{
    if log.len() == 0 {
        Map::empty()
    } else {
        files_after(log.drop_last()).insert(log.last().0, log.last().1)
    }
}

proof fn lemma_files_after_prefix(log: Seq<(Seq<char>, Seq<char>)>, i: int, p: Seq<char>)
    requires
        0 <= i <= log.len(),
        forall|j: int| i <= j < log.len() ==> log[j].0 != p,
    ensures
        files_after(log).contains_key(p) == files_after(log.subrange(0, i)).contains_key(p),
        files_after(log)[p] == files_after(log.subrange(0, i))[p],
    decreases log.len() - i,
{
    if i < log.len() {
        let r = log.drop_last();
        lemma_files_after_prefix(r, i, p);
        assert(r.subrange(0, i) =~= log.subrange(0, i));
    } else {
        assert(log.subrange(0, i) =~= log);
    }
}

/// A store in memory that keeps every write in order, so that what an
/// operation wrote can be handed on afterwards: tests run on it, and the
/// command line loads the repository's files into it and writes back what
/// it took.
pub struct MockFileActions {
    writes: Vec<(String, String)>,
}

impl MockFileActions {
    pub closed spec fn log(&self) -> Seq<(Seq<char>, Seq<char>)> {
        self.writes@.map_values(|w: (String, String)| (w.0@, w.1@))
    }

    /// A store that holds no file.
    pub fn new() -> (r: MockFileActions)
        ensures
            r.files() == Map::<Seq<char>, Seq<char>>::empty(),
    {
        MockFileActions { writes: Vec::new() }
    }

    /// How many writes the store has taken.
    pub fn write_count(&self) -> (r: usize)
        ensures
            r == self.log().len(),
    {
        self.writes.len()
    }

    /// The writes taken after the first `n`, in order: path and contents.
    pub fn writes_after(&self, n: usize) -> (r: Vec<(String, String)>)
        ensures
            r@.map_values(|w: (String, String)| (w.0@, w.1@)) == if n <= self.log().len() {
                self.log().subrange(n as int, self.log().len() as int)
            } else {
                Seq::empty()
            },
    {
        let mut r: Vec<(String, String)> = Vec::new();
        let mut i: usize = n;
        while i < self.writes.len()
            invariant
                n <= i || self.writes@.len() <= i,
                i <= self.writes@.len() || i == n,
                n <= self.writes@.len() ==> r@.map_values(|w: (String, String)| (w.0@, w.1@))
                    == self.log().subrange(n as int, i as int),
                n > self.writes@.len() ==> r@.len() == 0,
            decreases self.writes@.len() - i,
        {
            let w = (self.writes[i].0.clone(), self.writes[i].1.clone());
            proof {
                let a = r@.push(w).map_values(|w: (String, String)| (w.0@, w.1@));
                assert(a =~= self.log().subrange(n as int, i + 1));
            }
            r.push(w);
            i = i + 1;
        }
        proof {
            if n <= self.writes@.len() {
                assert(i == self.writes@.len());
            } else {
                assert(r@.map_values(|w: (String, String)| (w.0@, w.1@)) =~= Seq::<(Seq<char>, Seq<char>)>::empty());
            }
        }
        r
    }
}

impl FileActions for MockFileActions {
    open spec fn files(&self) -> Map<Seq<char>, Seq<char>> {
        files_after(self.log())
    }

    open spec fn reliable(&self) -> bool {
        true
    }

    fn write(&mut self, path: &str, s: &str) -> (r: Result<(), String>)
        ensures
            r is Ok,
    {
        let ghost before = self.log();
        self.writes.push((path.to_owned(), s.to_owned()));
        proof {
            assert(self.log().drop_last() =~= before);
        }
        Ok(())
    }

    fn read(&self, path: &str) -> (r: Result<String, String>)
        ensures
            r is Ok <==> self.files().contains_key(path@),
    {
        let p = path.to_owned();
        let ghost log = self.log();
        let mut i: usize = self.writes.len();
        while i > 0
            invariant
                i <= self.writes@.len(),
                log == self.log(),
                p@ == path@,
                forall|j: int| i <= j < log.len() ==> log[j].0 != p@,
            decreases i,
        {
            if self.writes[i - 1].0 == p {
                proof {
                    lemma_files_after_prefix(log, i as int, p@);
                    let sub = log.subrange(0, i as int);
                    assert(sub.drop_last() =~= log.subrange(0, i - 1));
                }
                return Ok(self.writes[i - 1].1.clone());
            }
            i = i - 1;
        }
        proof {
            lemma_files_after_prefix(log, 0, p@);
            assert(log.subrange(0, 0) =~= Seq::<(Seq<char>, Seq<char>)>::empty());
        }
        let mut msg = "no file at ".to_owned();
        msg.append(path);
        Err(msg)
    }
}

} // verus!
