use vstd::prelude::*;
use crate::text::{lemma_views_push, views};

verus! {

/// An environment variable set for a child process, over what it inherits.
pub struct EnvVar {
    pub name: String,
    pub value: String,
}

/// A child process to run: program, arguments in order, and environment
/// overlay.
pub struct Invocation {
    pub program: String,
    pub args: Vec<String>,
    pub env: Vec<EnvVar>,
}

/// The abstract form of an environment overlay.
pub open spec fn env_view(env: Seq<EnvVar>) -> Seq<(Seq<char>, Seq<char>)> {
    env.map_values(|e: EnvVar| (e.name@, e.value@))
}

impl Invocation {
    /// The program, as characters.
    pub open spec fn program_view(&self) -> Seq<char> {
        self.program@
    }

    /// The arguments, as characters.
    pub open spec fn args_view(&self) -> Seq<Seq<char>> {
        views(self.args@)
    }

    /// The environment overlay, as characters.
    pub open spec fn env_view(&self) -> Seq<(Seq<char>, Seq<char>)> {
        env_view(self.env@)
    }

    /// `program` with no arguments and no overlay.
    pub fn new(program: &str) -> (r: Invocation)
        ensures
            r.program@ == program@,
            r.args@.len() == 0,
            r.env@.len() == 0,
    {
        Invocation { program: String::from_str(program), args: Vec::new(), env: Vec::new() }
    }

    /// Appends argument `a`.
    pub fn arg(&mut self, a: &str)
        ensures
            final(self).program == old(self).program,
            final(self).env == old(self).env,
            final(self).args_view() == old(self).args_view().push(a@),
    {
        let s = String::from_str(a);
        proof {
            lemma_views_push(self.args@, s);
        }
        self.args.push(s);
    }

    /// Appends each of `more`, in order.
    pub fn args(&mut self, more: &Vec<String>)
        ensures
            final(self).program == old(self).program,
            final(self).env == old(self).env,
            final(self).args_view() == old(self).args_view() + views(more@),
    {
        let ghost start = self.args_view();
        let mut k: usize = 0;
        while k < more.len()
            invariant
                k <= more@.len(),
                self.program == old(self).program,
                self.env == old(self).env,
                start == old(self).args_view(),
                self.args_view() == start + views(more@).subrange(0, k as int),
            decreases more.len() - k,
        {
            let s = more[k].clone();
            proof {
                lemma_views_push(self.args@, s);
            }
            self.args.push(s);
            assert(self.args_view() =~= start + views(more@).subrange(0, k + 1));
            k = k + 1;
        }
        assert(views(more@).subrange(0, k as int) =~= views(more@));
    }

    /// Sets `name` to `value` in the overlay.
    pub fn env(&mut self, name: &str, value: String)
        ensures
            final(self).program == old(self).program,
            final(self).args == old(self).args,
            final(self).env_view() == old(self).env_view().push((name@, value@)),
    {
        let e = EnvVar { name: String::from_str(name), value };
        let ghost before = self.env@;
        self.env.push(e);
        assert(env_view(self.env@) =~= env_view(before).push((name@, value@)));
    }
}

/// `a` followed by `b`.
pub fn joined(a: &str, b: &str) -> (r: String)
    ensures
        r@ == a@ + b@,
{
    let mut s = String::from_str(a);
    s.append(b);
    s
}

/// Characters of `s` into a new `String`.
pub fn owned(s: &str) -> (r: String)
    ensures
        r@ == s@,
{
    String::from_str(s)
}

} // verus!
