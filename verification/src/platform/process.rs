//! Snapshots of running processes, as the resolver sees them.
use vstd::prelude::*;
use crate::text::chars_of;
use super::host_path::HostPath;

verus! {

/// A process at one moment. `environment` holds the few variables the
/// resolver reads, as (name, value) pairs.
#[derive(Clone, Debug, Eq, PartialEq)]
pub struct ProcessSnapshot {
    pub pid: u32,
    pub parent_pid: Option<u32>,
    pub name: String,
    pub executable: Option<HostPath>,
    pub command: Vec<String>,
    pub environment: Vec<(String, String)>,
    pub start_time_unix_seconds: u64,
}

/// The value of the first pair named `name`.
pub open spec fn env_lookup(env: Seq<(String, String)>, name: Seq<char>) -> Option<Seq<char>>
    decreases env.len(),
{
    if env.len() == 0 {
        None
    } else if env[0].0@ == name {
        Some(env[0].1@)
    } else {
        env_lookup(env.drop_first(), name)
    }
}

fn str_equal(a: &str, b: &str) -> (r: bool)
    ensures
        r == (a@ == b@),
{
    let x = chars_of(a);
    let y = chars_of(b);
    crate::text::chars_equal(x.as_slice(), y.as_slice())
}

impl ProcessSnapshot {
    /// The value of the environment variable `name`, if the snapshot holds it.
    pub fn environment_value(&self, name: &str) -> (r: Option<&str>)
        ensures
            match env_lookup(self.environment@, name@) {
                Some(v) => r matches Some(x) && x@ == v,
                None => r is None,
            },
    {
        let mut i: usize = 0;
        proof { assert(self.environment@.subrange(0, self.environment@.len() as int) =~= self.environment@); }
        while i < self.environment.len()
            invariant
                i <= self.environment@.len(),
                env_lookup(self.environment@, name@)
                    == env_lookup(self.environment@.subrange(i as int, self.environment@.len() as int), name@),
            decreases self.environment@.len() - i,
        {
            let ghost rest = self.environment@.subrange(i as int, self.environment@.len() as int);
            proof { assert(rest.drop_first() =~= self.environment@.subrange(i + 1, self.environment@.len() as int)); }
            let pair = &self.environment[i];
            if str_equal(pair.0.as_str(), name) {
                return Some(pair.1.as_str());
            }
            i = i + 1;
        }
        None
    }
}

/// A source of process snapshots, ordered by process id.
pub trait ProcessSource {
    fn snapshot(&self) -> Vec<ProcessSnapshot>;
}

} // verus!
