//! The configuration of the program.

use vstd::prelude::*;

verus! {

/// The whole configuration.
#[derive(Clone, Debug)]
pub struct Config {
    pub general: GeneralConfig,
    pub current_config: CurrentConfig,
}

/// Where the API and the relational store are, and how to reach them.
#[derive(Clone, Debug)]
pub struct GeneralConfig {
    /// The base URL of the API.
    pub server: String,
    /// The bearer token that authorises every request.
    pub token: String,
    /// The connection string of the relational store.
    pub postgres: String,
    /// The size of the connection pool.
    pub postgres_pool: i32,
}

/// The courses that are synchronised: a short name that the user types, and
/// the identifier of the course.
#[derive(Clone, Debug)]
pub struct CurrentConfig {
    pub exclude_zero_grades: bool,
    pub courses: Vec<(String, i32)>,
}

/// The identifiers of the configured courses, in the order of the list.
pub open spec fn configured_ids(courses: Seq<(String, i32)>) -> Seq<i32> {
    Seq::new(courses.len(), |i: int| courses[i].1)
}

impl CurrentConfig {
    /// The identifiers of the configured courses, in the order of the list.
    pub fn course_ids(&self) -> (ids: Vec<i32>)
        ensures
            ids@ == configured_ids(self.courses@),
    {
        let mut ids: Vec<i32> = Vec::new();
        let mut i: usize = 0;
        while i < self.courses.len()
            invariant
                i <= self.courses.len(),
                ids@ == configured_ids(self.courses@.take(i as int)),
            decreases self.courses.len() - i,
        {
            ids.push(self.courses[i].1);
            i = i + 1;
        }
        ids
    }
}

impl GeneralConfig {
    /// The greatest number of connections that the pool may open: the
    /// configured size read as an unsigned number, so that a size below zero
    /// wraps around.
    pub fn pool_connections(&self) -> (limit: u32)
        ensures
            limit == if self.postgres_pool < 0 {
                self.postgres_pool + 0x1_0000_0000
            } else {
                self.postgres_pool as int
            },
    {
        if self.postgres_pool < 0 {
            let above: i64 = self.postgres_pool as i64 + 0x1_0000_0000;
            above as u32
        } else {
            self.postgres_pool as u32
        }
    }
}

} // verus!
