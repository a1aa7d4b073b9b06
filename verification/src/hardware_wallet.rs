//! Hardware wallet interface: device connection state, per-device
//! capabilities, and the client operations of the built-in device stub.

use vstd::prelude::*;

use crate::trusted::hex_encode;
use crate::trusted::u64_to_string;
use crate::CoreError;

verus! {

/// The supported device families.
#[derive(Debug, Clone, Copy, PartialEq, Eq, Structural)]
pub enum WalletType {
    Ledger,
    Trezor,
    KeepKey,
    Coldcard,
    BitBox,
}

/// What a device family can do.
#[derive(Debug, Clone, Copy, PartialEq, Eq, Structural)]
pub enum WalletCapability {
    SignTransaction,
    GenerateAddress,
    VerifyAddress,
    GetPublicKey,
    PassphraseSupport,
    AirGapped,
}

/// The capabilities of each device family.
pub open spec fn caps_of(t: WalletType) -> Seq<WalletCapability> {
    match t {
        WalletType::Ledger => seq![
            WalletCapability::SignTransaction,
            WalletCapability::GenerateAddress,
            WalletCapability::VerifyAddress,
            WalletCapability::GetPublicKey,
        ],
        WalletType::Trezor => seq![
            WalletCapability::SignTransaction,
            WalletCapability::GenerateAddress,
            WalletCapability::VerifyAddress,
            WalletCapability::GetPublicKey,
            WalletCapability::PassphraseSupport,
        ],
        WalletType::KeepKey => seq![
            WalletCapability::SignTransaction,
            WalletCapability::GenerateAddress,
            WalletCapability::VerifyAddress,
            WalletCapability::GetPublicKey,
        ],
        WalletType::Coldcard => seq![
            WalletCapability::SignTransaction,
            WalletCapability::GenerateAddress,
            WalletCapability::VerifyAddress,
            WalletCapability::GetPublicKey,
            WalletCapability::AirGapped,
        ],
        WalletType::BitBox => seq![
            WalletCapability::SignTransaction,
            WalletCapability::GenerateAddress,
            WalletCapability::VerifyAddress,
            WalletCapability::GetPublicKey,
        ],
    }
}

/// One hardware wallet device.
#[derive(Debug)]
pub struct HardwareWallet {
    wallet_type: WalletType,
    connected: bool,
    device_id: Option<String>,
}

impl HardwareWallet {
    /// The device family.
    pub closed spec fn spec_wallet_type(self) -> WalletType {
        self.wallet_type
    }

    /// Whether the device is connected.
    pub closed spec fn spec_connected(self) -> bool {
        self.connected
    }

    /// The device id, present exactly while connected.
    pub closed spec fn spec_device_id(self) -> Option<String> {
        self.device_id
    }

    pub fn new(wallet_type: WalletType) -> (r: Self)
        ensures
            r.spec_wallet_type() == wallet_type,
            !r.spec_connected(),
            r.spec_device_id() is None,
    {
        HardwareWallet { wallet_type, connected: false, device_id: None }
    }

    /// Try to open the device.  The stub link succeeds on nine draws out of
    /// ten; on success the device carries a drawn id, on failure it stays
    /// closed.
    pub fn connect(&mut self) -> (r: Result<(), CoreError>)
        ensures
            final(self).spec_wallet_type() == old(self).spec_wallet_type(),
            r matches Ok(_) ==> (final(self).spec_connected() && final(self).spec_device_id()
                is Some),
            r matches Err(e) ==> (e == CoreError::TransientRuntime && !final(self).spec_connected() && final(self).spec_device_id() is None),
    {
        let draw: u32 = rand::random::<u32>();
        // Nine in ten draws of the stub link succeed.
        if draw >= 429_496_730 {
            let id_num: u32 = rand::random::<u32>();
            let num = u64_to_string(id_num as u64);
            self.connected = true;
            self.device_id = Some(String::from_str("device_").concat(num.as_str()));
            Ok(())
        } else {
            self.connected = false;
            self.device_id = None;
            Err(CoreError::TransientRuntime)
        }
    }

    /// Close the device.
    pub fn disconnect(&mut self) -> (r: Result<(), CoreError>)
        ensures
            final(self).spec_wallet_type() == old(self).spec_wallet_type(),
            !final(self).spec_connected(),
            final(self).spec_device_id() is None,
            r == Ok::<(), CoreError>(()),
    {
        self.connected = false;
        self.device_id = None;
        Ok(())
    }

    /// Whether the device is open.
    pub fn is_connected(&self) -> (r: bool)
        ensures
            r == self.spec_connected(),
    {
        self.connected
    }

    /// The device family.
    pub fn get_wallet_type(&self) -> (r: &WalletType)
        ensures
            *r == self.spec_wallet_type(),
    {
        &self.wallet_type
    }

    /// The connected device's id, if any.
    pub fn get_device_id(&self) -> (r: Option<String>)
        ensures
            r is Some <==> self.spec_device_id() is Some,
            r matches Some(id) ==> self.spec_device_id() == Some(id),
    {
        match &self.device_id {
            Some(s) => Some(s.clone()),
            None => None,
        }
    }

    /// What this device family can do.
    pub fn get_capabilities(&self) -> (r: Vec<WalletCapability>)
        ensures
            r@ =~= caps_of(self.spec_wallet_type()),
    {
        let mut v: Vec<WalletCapability> = Vec::new();
        v.push(WalletCapability::SignTransaction);
        v.push(WalletCapability::GenerateAddress);
        v.push(WalletCapability::VerifyAddress);
        v.push(WalletCapability::GetPublicKey);
        match self.wallet_type {
            WalletType::Trezor => {
                v.push(WalletCapability::PassphraseSupport);
            },
            WalletType::Coldcard => {
                v.push(WalletCapability::AirGapped);
            },
            _ => {},
        }
        v
    }
}

impl Default for HardwareWallet {
    fn default() -> (r: Self)
        ensures
            r.spec_wallet_type() == WalletType::Ledger,
            !r.spec_connected(),
    {
        HardwareWallet::new(WalletType::Ledger)
    }
}

/// The device description handed to callers.
#[derive(Debug)]
pub struct WalletInfo {
    pub wallet_type: WalletType,
    pub connected: bool,
    pub device_id: Option<String>,
    pub capabilities: Vec<WalletCapability>,
}

/// Drives operations against one device.
#[derive(Debug)]
pub struct HardwareWalletClient {
    wallet: HardwareWallet,
}

impl HardwareWalletClient {
    /// The wrapped device.
    pub closed spec fn spec_wallet(self) -> HardwareWallet {
        self.wallet
    }

    pub fn new(wallet: HardwareWallet) -> (r: Self)
        ensures
            r.spec_wallet() == wallet,
    {
        HardwareWalletClient { wallet }
    }

    /// Sign a transaction on the device.  A closed device is refused; the
    /// stub otherwise signs on nineteen draws out of twenty, handing back a
    /// 64-byte signature.
    pub fn sign_transaction(&self, transaction_data: &[u8]) -> (r: Result<Vec<u8>, CoreError>)
        ensures
            !self.spec_wallet().spec_connected() ==> r == Err::<Vec<u8>, CoreError>(
                CoreError::Validation,
            ),
            r matches Ok(sig) ==> (self.spec_wallet().spec_connected() && sig@.len() == 64),
    {
        if !self.wallet.is_connected() {
            return Err(CoreError::Validation);
        }
        let draw: u32 = rand::random::<u32>();
        // Nineteen in twenty draws of the stub succeed.
        if draw >= 214_748_365 {
            let mut signature: Vec<u8> = Vec::new();
            let mut i: usize = 0;
            while i < 64
                invariant
                    i <= 64,
                    signature@.len() == i,
                decreases 64 - i,
            {
                signature.push(rand::random::<u8>());
                i += 1;
            }
            Ok(signature)
        } else {
            Err(CoreError::TransientRuntime)
        }
    }

    /// Derive a fresh address on the device: a fixed tag over drawn hex
    /// digits.  A closed device is refused.
    pub fn generate_address(&self, derivation_path: &str) -> (r: Result<String, CoreError>)
        ensures
            !self.spec_wallet().spec_connected() ==> r == Err::<String, CoreError>(
                CoreError::Validation,
            ),
            r matches Ok(a) ==> (self.spec_wallet().spec_connected() && a@.len() == 36 && a@.subrange(
                0,
                4,
            ) == "bc1q"@),
    {
        if !self.wallet.is_connected() {
            return Err(CoreError::Validation);
        }
        let mut bytes: Vec<u8> = Vec::new();
        let mut i: usize = 0;
        while i < 16
            invariant
                i <= 16,
                bytes@.len() == i,
            decreases 16 - i,
        {
            bytes.push(rand::random::<u8>());
            i += 1;
        }
        let tail = hex_encode(bytes.as_slice());
        let addr = String::from_str("bc1q").concat(tail.as_str());
        proof {
            reveal_strlit("bc1q");
            assert(addr@.subrange(0, 4) =~= "bc1q"@);
        }
        Ok(addr)
    }

    /// Check an address on the device.  A closed device is refused; the
    /// stub confirms on forty-nine draws out of fifty.
    pub fn verify_address(&self, address: &str) -> (r: Result<bool, CoreError>)
        ensures
            !self.spec_wallet().spec_connected() ==> r == Err::<bool, CoreError>(
                CoreError::Validation,
            ),
            r matches Ok(_) ==> self.spec_wallet().spec_connected(),
    {
        if !self.wallet.is_connected() {
            return Err(CoreError::Validation);
        }
        let draw: u32 = rand::random::<u32>();
        // Forty-nine in fifty draws of the stub confirm.
        Ok(draw >= 85_899_346)
    }

    /// The compressed public key at a derivation path: 33 bytes opening
    /// with the compressed-key prefix.  A closed device is refused.
    pub fn get_public_key(&self, derivation_path: &str) -> (r: Result<Vec<u8>, CoreError>)
        ensures
            !self.spec_wallet().spec_connected() ==> r == Err::<Vec<u8>, CoreError>(
                CoreError::Validation,
            ),
            r matches Ok(k) ==> (self.spec_wallet().spec_connected() && k@.len() == 33 && k@[0]
                == 2),
    {
        if !self.wallet.is_connected() {
            return Err(CoreError::Validation);
        }
        let mut public_key: Vec<u8> = Vec::new();
        public_key.push(2);
        let mut i: usize = 1;
        while i < 33
            invariant
                1 <= i <= 33,
                public_key@.len() == i,
                public_key@[0] == 2,
            decreases 33 - i,
        {
            public_key.push(rand::random::<u8>());
            i += 1;
        }
        Ok(public_key)
    }

    /// The device description: family, link state, id and capabilities.
    pub fn get_wallet_info(&self) -> (r: WalletInfo)
        ensures
            r.wallet_type == self.spec_wallet().spec_wallet_type(),
            r.connected == self.spec_wallet().spec_connected(),
            r.capabilities@ =~= caps_of(self.spec_wallet().spec_wallet_type()),
    {
        WalletInfo {
            wallet_type: *self.wallet.get_wallet_type(),
            connected: self.wallet.is_connected(),
            device_id: self.wallet.get_device_id(),
            capabilities: self.wallet.get_capabilities(),
        }
    }
}

} // verus!
