//! Service types: the `(name, protocol)` pair naming a DNS-SD service class.
//!
//! A service type is a plain value: constructing one allocates no native
//! resource and touches no native service.  On the wire the type is the
//! dotted path `_name._protocol`, so its components are validated at
//! construction: a component must be non-empty and must not contain the
//! path's separator `'.'`.  Construction fails on exactly those inputs.

use vstd::prelude::*;

use crate::error::Error;

verus! {

/// The separator of the dotted service-type path.
pub const TYPE_PATH_SEPARATOR: char = '.';

/// A component of a service-type path: non-empty and free of the separator.
pub open spec fn valid_part(s: Seq<char>) -> bool {
    &&& 0 < s.len()
    &&& !s.contains(TYPE_PATH_SEPARATOR)
}

/// True exactly when a string is a valid service-type component.
pub fn check_part(s: &str) -> (r: bool)
    ensures
        r == valid_part(s@),
{
    let n = s.unicode_len();
    if n == 0 {
        return false;
    }
    let mut i: usize = 0;
    while i < n
        invariant
            n == s@.len(),
            0 <= i <= n,
            forall|m: int| 0 <= m < i ==> s@[m] != TYPE_PATH_SEPARATOR,
        decreases n - i,
    {
        if s.get_char(i) == TYPE_PATH_SEPARATOR {
            assert(s@.contains(TYPE_PATH_SEPARATOR));
            return false;
        }
        i = i + 1;
    }
    true
}

/// A validated service type: protocol name, transport, optional sub-types.
/// Immutable once constructed.
#[derive(Debug, Clone)]
pub struct ServiceType {
    name: String,
    protocol: String,
    sub_types: Vec<String>,
}

impl ServiceType {
    /// Every component of the type is valid.
    pub open spec fn wf(self) -> bool {
        &&& valid_part(self.spec_name())
        &&& valid_part(self.spec_protocol())
        &&& forall|i: int| 0 <= i < self.spec_sub_types().len() ==> valid_part(
            #[trigger] self.spec_sub_types()[i],
        )
    }

    pub closed spec fn spec_name(self) -> Seq<char> {
        self.name@
    }

    pub closed spec fn spec_protocol(self) -> Seq<char> {
        self.protocol@
    }

    pub closed spec fn spec_sub_types(self) -> Seq<Seq<char>> {
        self.sub_types@.map_values(|s: String| s@)
    }

    /// Constructs a service type from a name (e.g. `http`) and a transport
    /// protocol (e.g. `tcp`).  Succeeds exactly when both components are
    /// valid; no native resource is involved.
    pub fn new(name: &str, protocol: &str) -> (r: Result<ServiceType, Error>)
        ensures
            match r {
                Ok(t) => valid_part(name@) && valid_part(protocol@) && t.wf() && t.spec_name()
                    == name@ && t.spec_protocol() == protocol@ && t.spec_sub_types()
                    == Seq::<Seq<char>>::empty(),
                Err(e) => e == Error::EncodingError && !(valid_part(name@) && valid_part(
                    protocol@,
                )),
            },
    {
        let sub_types: Vec<String> = Vec::new();
        let r = Self::with_sub_types(name, protocol, sub_types);
        proof {
            assert(Seq::<String>::empty().map_values(|s: String| s@) =~= Seq::<
                Seq<char>,
            >::empty());
        }
        r
    }

    /// Constructs a service type with sub-types; each sub-type component must
    /// be valid too.
    pub fn with_sub_types(name: &str, protocol: &str, sub_types: Vec<String>) -> (r: Result<
        ServiceType,
        Error,
    >)
        ensures
            match r {
                Ok(t) => valid_part(name@) && valid_part(protocol@) && t.wf() && t.spec_name()
                    == name@ && t.spec_protocol() == protocol@ && t.spec_sub_types()
                    == sub_types@.map_values(|s: String| s@) && (forall|i: int|
                    0 <= i < sub_types@.len() ==> valid_part(#[trigger] sub_types@[i]@)),
                Err(e) => e == Error::EncodingError && !(valid_part(name@) && valid_part(protocol@)
                    && (forall|i: int|
                    0 <= i < sub_types@.len() ==> valid_part(#[trigger] sub_types@[i]@))),
            },
    {
        if !check_part(name) || !check_part(protocol) {
            return Err(Error::EncodingError);
        }
        let n = sub_types.len();
        let mut i: usize = 0;
        while i < n
            invariant
                n == sub_types@.len(),
                0 <= i <= n,
                forall|m: int| 0 <= m < i ==> valid_part(#[trigger] sub_types@[m]@),
            decreases n - i,
        {
            if !check_part(sub_types[i].as_str()) {
                return Err(Error::EncodingError);
            }
            i = i + 1;
        }
        Ok(
            ServiceType {
                name: name.to_owned(),
                protocol: protocol.to_owned(),
                sub_types,
            },
        )
    }

    /// The dotted wire form of the type, `_name._protocol`, as the native
    /// layer's register and browse calls take it.
    pub fn wire_format(&self) -> (r: String)
        ensures
            r@ == seq!['_'] + self.spec_name() + seq!['.', '_'] + self.spec_protocol(),
    {
        proof {
            reveal_strlit("_");
            reveal_strlit("._");
        }
        let mut s = String::from_str("_");
        s.append(self.name.as_str());
        s.append("._");
        s.append(self.protocol.as_str());
        proof {
            assert(s@ =~= seq!['_'] + self.spec_name() + seq!['.', '_'] + self.spec_protocol());
        }
        s
    }

    /// The service name component.
    pub fn name(&self) -> (r: &String)
        ensures
            r@ == self.spec_name(),
    {
        &self.name
    }

    /// The transport protocol component.
    pub fn protocol(&self) -> (r: &String)
        ensures
            r@ == self.spec_protocol(),
    {
        &self.protocol
    }

    /// The sub-type components.
    pub fn sub_types(&self) -> (r: &Vec<String>)
        ensures
            r@.map_values(|s: String| s@) == self.spec_sub_types(),
    {
        &self.sub_types
    }
}

} // verus!
