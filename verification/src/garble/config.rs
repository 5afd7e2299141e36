//! Configuration of the garbled circuit protocol.

use vstd::prelude::*;

verus! {

/// Role in two-party computation.
#[derive(Debug, Clone, Copy, PartialEq, Eq, Structural)]
pub enum Role {
    /// The party that leads.
    Leader,
    /// The party that follows.
    Follower,
}

impl Role {
    /// The name of the role.
    pub open spec fn name_spec(self) -> Seq<char> {
        match self {
            Role::Leader => "Leader"@,
            Role::Follower => "Follower"@,
        }
    }

    /// Returns the name of the role.
    pub fn name(&self) -> (s: &'static str)
        ensures
            s@ == self.name_spec(),
    {
        match self {
            Role::Leader => "Leader",
            Role::Follower => "Follower",
        }
    }
}

/// Visibility of a value.
#[derive(Debug, Clone, Copy, PartialEq, Eq, Structural)]
pub enum Visibility {
    /// A value known to all parties.
    Public,
    /// A private value known to this party.
    Private,
    /// A private value not known to this party.
    Blind,
}

/// Generator configuration.
#[derive(Debug, Clone, Copy, PartialEq, Eq, Structural)]
pub struct GeneratorConfig {
    encoding_commitments: bool,
}

impl GeneratorConfig {
    /// Whether to send commitments to output encodings.
    pub closed spec fn commits(self) -> bool {
        self.encoding_commitments
    }

    /// Creates a new builder for the generator configuration.
    pub fn builder() -> (r: GeneratorConfigBuilder)
        ensures
            r.commits_set() is None,
    {
        GeneratorConfigBuilder { encoding_commitments: None }
    }

    /// Returns whether to send commitments to output encodings.
    pub fn encoding_commitments(&self) -> (r: bool)
        ensures
            r == self.commits(),
    {
        self.encoding_commitments
    }
}

impl Default for GeneratorConfig {
    fn default() -> (r: Self)
        ensures
            !r.commits(),
    {
        GeneratorConfig { encoding_commitments: false }
    }
}

/// Builder of a generator configuration.
#[derive(Debug, Clone, Copy, PartialEq, Eq, Structural)]
pub struct GeneratorConfigBuilder {
    encoding_commitments: Option<bool>,
}

/// An error building a generator configuration.
#[derive(Debug, Clone, Copy, PartialEq, Eq, Structural)]
pub struct GeneratorConfigBuilderError;

impl GeneratorConfigBuilder {
    /// The setting chosen so far for encoding commitments.
    pub closed spec fn commits_set(self) -> Option<bool> {
        self.encoding_commitments
    }

    /// Enables encoding commitments.
    pub fn encoding_commitments(&mut self) -> (r: &mut Self)
        ensures
            r.commits_set() == Some(true),
            *final(self) == *final(r),
    {
        self.encoding_commitments = Some(true);
        self
    }

    /// Builds the configuration; encoding commitments are off unless enabled.
    pub fn build(&self) -> (r: Result<GeneratorConfig, GeneratorConfigBuilderError>)
        ensures
            r matches Ok(c) && c.commits() == (self.commits_set() == Some(true)),
    {
        let encoding_commitments = match self.encoding_commitments {
            Some(b) => b,
            None => false,
        };
        Ok(GeneratorConfig { encoding_commitments })
    }
}

impl Default for GeneratorConfigBuilder {
    fn default() -> (r: Self)
        ensures
            r.commits_set() is None,
    {
        GeneratorConfigBuilder { encoding_commitments: None }
    }
}

} // verus!
