use vstd::prelude::*;

use vstd::slice::slice_to_vec;
use vstd::string::StringSliceAdditionalSpecFns;

verus! {

fn bytes_eq(a: &Vec<u8>, b: &[u8]) -> (r: bool)
    ensures
        r == (a@ == b@),
{
    if a.len() != b.len() {
        return false;
    }
    let mut i: usize = 0;
    while i < a.len()
        invariant
            a@.len() == b@.len(),
            i <= a@.len(),
            forall|j: int| 0 <= j < i ==> a@[j] == b@[j],
        decreases a@.len() - i,
    {
        if a[i] != b[i] {
            return false;
        }
        i += 1;
    }
    proof {
        assert(a@ =~= b@);
    }
    true
}

/// The table of registered functions: each function name — kept as its
/// UTF-8 bytes, the form in which names travel on the wire — bound to one
/// handler.  The handler type is the embedding program's own; the library
/// stores and returns handlers but never invokes one.
///
/// The table is the only state a server shares between connections; an
/// embedding program that serves connections concurrently puts it behind a
/// lock and registers or looks up under that lock.
pub struct Registry<H> {
    names: Vec<Vec<u8>>,
    handlers: Vec<H>,
}

impl<H> Registry<H> {
    /// Well-formed: one handler per name, and no name twice.
    pub closed spec fn wf(self) -> bool {
        &&& self.names@.len() == self.handlers@.len()
        &&& forall|i: int, j: int|
            0 <= i < j < self.names@.len() ==> self.names@[i]@ != self.names@[j]@
    }

    /// Whether a handler is registered under these name bytes.
    pub closed spec fn spec_contains(self, name: Seq<u8>) -> bool {
        exists|i: int| 0 <= i < self.names@.len() && self.names@[i]@ == name
    }

    /// The handler registered under these name bytes.
    pub closed spec fn spec_handler(self, name: Seq<u8>) -> H
        recommends
            self.spec_contains(name),
    {
        self.handlers@[choose|i: int| 0 <= i < self.names@.len() && self.names@[i]@ == name]
    }

    proof fn lemma_index_unique(self, i: int)
        requires
            self.wf(),
            0 <= i < self.names@.len(),
        ensures
            (choose|j: int|
                0 <= j < self.names@.len() && self.names@[j]@ == self.names@[i]@) == i,
    {
        let n = self.names@[i]@;
        assert(0 <= i < self.names@.len() && self.names@[i]@ == n);
        let j = choose|j: int| 0 <= j < self.names@.len() && self.names@[j]@ == n;
        assert(0 <= j < self.names@.len() && self.names@[j]@ == n);
    }

    /// An empty table.
    pub fn new() -> (r: Self)
        ensures
            r.wf(),
            forall|n: Seq<u8>| !#[trigger] r.spec_contains(n),
    {
        Registry { names: Vec::new(), handlers: Vec::new() }
    }

    fn find(&self, name: &[u8]) -> (r: Option<usize>)
        requires
            self.wf(),
        ensures
            match r {
                Some(i) => i < self.names@.len() && self.names@[i as int]@ == name@,
                None => !self.spec_contains(name@),
            },
    {
        let mut i: usize = 0;
        while i < self.names.len()
            invariant
                i <= self.names@.len(),
                forall|j: int| 0 <= j < i ==> self.names@[j]@ != name@,
            decreases self.names@.len() - i,
        {
            if bytes_eq(&self.names[i], name) {
                return Some(i);
            }
            i += 1;
        }
        None
    }

    /// Binds `handler` to `fn_name`, replacing any handler already bound
    /// to that name.  Every other binding is untouched.
    pub fn register(&mut self, fn_name: &str, handler: H)
        requires
            old(self).wf(),
        ensures
            final(self).wf(),
            final(self).spec_contains(fn_name.spec_bytes()),
            final(self).spec_handler(fn_name.spec_bytes()) == handler,
            forall|n: Seq<u8>|
                n != fn_name.spec_bytes() ==> (#[trigger] final(self).spec_contains(n)
                    <==> old(self).spec_contains(n)),
            forall|n: Seq<u8>|
                n != fn_name.spec_bytes() && old(self).spec_contains(n)
                    ==> #[trigger] final(self).spec_handler(n) == old(self).spec_handler(n),
    {
        let name_bytes: &[u8] = fn_name.as_bytes();
        let found = self.find(name_bytes);
        match found {
            Some(i) => {
                self.handlers[i] = handler;
                proof {
                    assert(self.names@ == old(self).names@);
                    assert(self.names@[i as int]@ == fn_name.spec_bytes());
                    self.lemma_index_unique(i as int);
                    assert forall|n: Seq<u8>|
                        n != fn_name.spec_bytes() implies (#[trigger] self.spec_contains(n)
                        <==> old(self).spec_contains(n)) by {
                        if self.spec_contains(n) {
                            let j = choose|j: int|
                                0 <= j < self.names@.len() && self.names@[j]@ == n;
                            assert(old(self).names@[j]@ == n);
                        }
                        if old(self).spec_contains(n) {
                            let j = choose|j: int|
                                0 <= j < old(self).names@.len() && old(self).names@[j]@ == n;
                            assert(self.names@[j]@ == n);
                        }
                    }
                    assert forall|n: Seq<u8>|
                        n != fn_name.spec_bytes() && old(self).spec_contains(
                            n,
                        ) implies #[trigger] self.spec_handler(n) == old(self).spec_handler(n) by {
                        let j = choose|j: int|
                            0 <= j < old(self).names@.len() && old(self).names@[j]@ == n;
                        assert(0 <= j < self.names@.len() && self.names@[j]@ == n);
                        assert(j != i);
                        old(self).lemma_index_unique(j);
                        self.lemma_index_unique(j);
                    }
                }
            },
            None => {
                let owned: Vec<u8> = slice_to_vec(name_bytes);
                let ghost ob: Seq<u8> = owned@;
                self.names.push(owned);
                self.handlers.push(handler);
                proof {
                    let nlen = old(self).names@.len() as int;
                    assert(self.names@ == old(self).names@.push(owned));
                    assert(ob == fn_name.spec_bytes());
                    assert forall|i: int, j: int|
                        0 <= i < j < self.names@.len() implies self.names@[i]@
                        != self.names@[j]@ by {
                        if j < nlen {
                            assert(self.names@[i]@ == old(self).names@[i]@);
                            assert(self.names@[j]@ == old(self).names@[j]@);
                        } else {
                            assert(self.names@[j]@ == fn_name.spec_bytes());
                            assert(self.names@[i]@ == old(self).names@[i]@);
                            assert(old(self).names@[i]@ != fn_name.spec_bytes());
                        }
                    }
                    assert(self.names@[nlen]@ == fn_name.spec_bytes());
                    self.lemma_index_unique(nlen);
                    assert forall|n: Seq<u8>|
                        n != fn_name.spec_bytes() implies (#[trigger] self.spec_contains(n)
                        <==> old(self).spec_contains(n)) by {
                        if self.spec_contains(n) {
                            let j = choose|j: int|
                                0 <= j < self.names@.len() && self.names@[j]@ == n;
                            assert(j != nlen);
                            assert(old(self).names@[j]@ == n);
                        }
                        if old(self).spec_contains(n) {
                            let j = choose|j: int|
                                0 <= j < old(self).names@.len() && old(self).names@[j]@ == n;
                            assert(self.names@[j]@ == n);
                        }
                    }
                    assert forall|n: Seq<u8>|
                        n != fn_name.spec_bytes() && old(self).spec_contains(
                            n,
                        ) implies #[trigger] self.spec_handler(n) == old(self).spec_handler(n) by {
                        let j = choose|j: int|
                            0 <= j < old(self).names@.len() && old(self).names@[j]@ == n;
                        assert(0 <= j < self.names@.len() && self.names@[j]@ == n);
                        assert(j != nlen);
                        old(self).lemma_index_unique(j);
                        self.lemma_index_unique(j);
                    }
                }
            },
        }
    }

    /// Whether a handler is bound to these name bytes.
    pub fn contains_key(&self, name: &Vec<u8>) -> (r: bool)
        requires
            self.wf(),
        ensures
            r == self.spec_contains(name@),
    {
        match self.find(name.as_slice()) {
            Some(_) => true,
            None => false,
        }
    }

    /// The handler bound to these name bytes, if any.
    pub fn lookup(&self, name: &Vec<u8>) -> (r: Option<&H>)
        requires
            self.wf(),
        ensures
            match r {
                Some(h) => self.spec_contains(name@) && *h == self.spec_handler(name@),
                None => !self.spec_contains(name@),
            },
    {
        match self.find(name.as_slice()) {
            Some(i) => {
                proof {
                    self.lemma_index_unique(i as int);
                }
                Some(&self.handlers[i])
            },
            None => None,
        }
    }
}

} // verus!
