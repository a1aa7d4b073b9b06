//! Biometric authentication: which factor types the platform offers and
//! whether the handler is ready to use them.

use vstd::prelude::*;

verus! {

/// The supported biometric factors.
#[derive(Debug, Clone, Copy, PartialEq, Eq, Structural)]
pub enum BiometricType {
    Fingerprint,
    FaceId,
    Voice,
    Iris,
}

/// Tracks which biometric factors are available.
#[derive(Debug)]
pub struct BiometricAuth {
    enabled: bool,
    supported_types: Vec<BiometricType>,
}

impl BiometricAuth {
    /// Whether the handler was initialized.
    pub closed spec fn spec_enabled(self) -> bool {
        self.enabled
    }

    /// The factors the platform offers.
    pub closed spec fn spec_supported(self) -> Seq<BiometricType> {
        self.supported_types@
    }

    pub fn new() -> (r: Self)
        ensures
            !r.spec_enabled(),
            r.spec_supported() =~= Seq::<BiometricType>::empty(),
    {
        BiometricAuth { enabled: false, supported_types: Vec::new() }
    }

    /// Probe the platform: the stub always finds fingerprint and face
    /// factors and switches the handler on.
    pub fn initialize(&mut self) -> (r: Result<(), crate::CoreError>)
        ensures
            final(self).spec_enabled(),
            final(self).spec_supported() =~= seq![BiometricType::Fingerprint, BiometricType::FaceId],
            r == Ok::<(), crate::CoreError>(()),
    {
        let mut v: Vec<BiometricType> = Vec::new();
        v.push(BiometricType::Fingerprint);
        v.push(BiometricType::FaceId);
        self.supported_types = v;
        self.enabled = true;
        Ok(())
    }

    /// Whether authentication can be attempted: the handler is on and at
    /// least one factor is offered.
    pub fn is_available(&self) -> (r: bool)
        ensures
            r == (self.spec_enabled() && self.spec_supported().len() > 0),
    {
        self.enabled && self.supported_types.len() > 0
    }

    /// The offered factors.
    pub fn get_supported_types(&self) -> (r: Vec<BiometricType>)
        ensures
            r@ =~= self.spec_supported(),
    {
        let mut out: Vec<BiometricType> = Vec::new();
        let mut i: usize = 0;
        while i < self.supported_types.len()
            invariant
                i <= self.supported_types.len(),
                out@ =~= self.supported_types@.take(i as int),
            decreases self.supported_types.len() - i,
        {
            out.push(self.supported_types[i]);
            proof {
                assert(self.supported_types@.take(i + 1) =~= self.supported_types@.take(
                    i as int,
                ).push(self.supported_types@[i as int]));
            }
            i += 1;
        }
        proof {
            assert(self.supported_types@.take(i as int) =~= self.supported_types@);
        }
        out
    }
}

} // verus!
