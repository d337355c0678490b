//! The names by which deployments, entity types and entities are known.
use vstd::prelude::*;
use crate::ast::{InterfaceType, ObjectType};
use crate::text::{chars_of, same};

verus! {

/// The name of a type whose entities are stored.
#[derive(Debug, PartialEq, Eq)]
pub struct EntityType(String);

impl View for EntityType {
    type V = Seq<char>;

    closed spec fn view(&self) -> Seq<char> {
        self.0@
    }
}

impl Clone for EntityType {
    fn clone(&self) -> (r: EntityType)
        ensures
            r@ == self@,
    {
        EntityType(self.0.clone())
    }
}

impl EntityType {
    pub fn new(entity_type: String) -> (r: EntityType)
        ensures
            r@ == entity_type@,
    {
        EntityType(entity_type)
    }

    pub fn as_str(&self) -> (r: &str)
        ensures
            r@ == self@,
    {
        self.0.as_str()
    }

    /// The entity type that an object type defines.
    pub fn of_object(t: &ObjectType) -> (r: EntityType)
        ensures
            r@ == t@.name,
    {
        EntityType(t.name.clone())
    }

    /// The entity type by which an interface is queried.
    pub fn of_interface(t: &InterfaceType) -> (r: EntityType)
        ensures
            r@ == t@.name,
    {
        EntityType(t.name.clone())
    }
}

/// What identifies an entity: its type, and its id among those of the type.
#[derive(Debug, PartialEq, Eq)]
pub struct EntityKey {
    pub entity_type: EntityType,
    pub entity_id: String,
}

/// The name of a deployment: at most 46 letters, digits and underscores of
/// ASCII, and not `subgraphs`.
#[derive(Debug, PartialEq, Eq)]
pub struct DeploymentHash(String);

impl View for DeploymentHash {
    type V = Seq<char>;

    closed spec fn view(&self) -> Seq<char> {
        self.0@
    }
}

impl Clone for DeploymentHash {
    fn clone(&self) -> (r: DeploymentHash)
        ensures
            r@ == self@,
    {
        proof {
            use_type_invariant(self);
        }
        DeploymentHash(self.0.clone())
    }
}

/// Whether a deployment's name may hold `c`.
pub open spec fn is_hash_char(c: char) -> bool {
    let n = c as u32;
    ||| 0x30 <= n <= 0x39
    ||| 0x41 <= n <= 0x5a
    ||| 0x61 <= n <= 0x7a
    ||| n == 0x5f
}

/// Whether a text names a deployment.
pub open spec fn is_deployment_hash(s: Seq<char>) -> bool {
    &&& s.len() <= 46
    &&& forall|i: int| 0 <= i < s.len() ==> is_hash_char(#[trigger] s[i])
    &&& s != "subgraphs"@
}

impl DeploymentHash {
    /// Every `DeploymentHash` is the name of a deployment.
    #[verifier::type_invariant]
    pub closed spec fn names_deployment(self) -> bool {
        is_deployment_hash(self.0@)
    }

    /// The deployment with that name; the text itself where it names none.
    pub fn new(s: &str) -> (r: Result<DeploymentHash, String>)
        ensures
            r is Ok <==> is_deployment_hash(s@),
            r matches Ok(hash) ==> hash@ == s@,
            r matches Err(e) ==> e@ == s@,
    {
        let cs = chars_of(s);
        if cs.len() > 46 {
            return Err(s.to_owned());
        }
        let mut i: usize = 0;
        while i < cs.len()
            invariant
                i <= cs@.len(),
                cs@ == s@,
                forall|j: int| 0 <= j < i ==> is_hash_char(#[trigger] cs@[j]),
            decreases cs@.len() - i,
        {
            let n: u32 = cs[i] as u32;
            if !((0x30 <= n && n <= 0x39) || (0x41 <= n && n <= 0x5a) || (0x61 <= n && n <= 0x7a)
                || n == 0x5f) {
                assert(!is_hash_char(s@[i as int]));
                return Err(s.to_owned());
            }
            i += 1;
        }
        if same(s, "subgraphs") {
            return Err(s.to_owned());
        }
        Ok(DeploymentHash(s.to_owned()))
    }

    /// The name of the deployment.
    pub fn as_str(&self) -> (r: &str)
        ensures
            r@ == self@,
            is_deployment_hash(r@),
    {
        proof {
            use_type_invariant(self);
        }
        self.0.as_str()
    }
}

} // verus!
