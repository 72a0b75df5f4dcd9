use vstd::prelude::*;

verus! {

/// Camera vendors, by their USB vendor identifier.
#[derive(Debug, Clone, Copy, PartialEq, Eq, Structural)]
pub enum VendorType {
    Insta,
    Theta,
}

/// Camera models, by their USB product identifier.
#[derive(Debug, Clone, Copy, PartialEq, Eq, Structural)]
pub enum DeviceType {
    Insta360OneX2,
    ThetaZ1,
}

pub open spec fn vendor_of(vendor_id: u16) -> Option<VendorType> {
    if vendor_id == 1802 {
        Some(VendorType::Insta)
    } else if vendor_id == 1482 {
        Some(VendorType::Theta)
    } else {
        None
    }
}

pub open spec fn device_of(product_id: u16) -> Option<DeviceType> {
    if product_id == 16422 || product_id == 16423 {
        Some(DeviceType::Insta360OneX2)
    } else if product_id == 877 {
        Some(DeviceType::ThetaZ1)
    } else {
        None
    }
}

/// A USB device is taken for a camera when both its vendor and its product
/// are known.
pub open spec fn is_camera_ids(vendor_id: u16, product_id: u16) -> bool {
    vendor_of(vendor_id) is Some && device_of(product_id) is Some
}

impl VendorType {
    pub fn from_vendor_id(vendor_id: u16) -> (r: Option<Self>)
        ensures
            r == vendor_of(vendor_id),
    {
        match vendor_id {
            1802 => Some(VendorType::Insta),
            1482 => Some(VendorType::Theta),
            _ => None,
        }
    }

    pub open spec fn spec_name(self) -> Seq<char> {
        match self {
            VendorType::Insta => seq!['I', 'n', 's', 't', 'a'],
            VendorType::Theta => seq!['T', 'h', 'e', 't', 'a'],
        }
    }

    /// The vendor's human-readable name.
    pub fn name(&self) -> (r: &'static str)
        ensures
            r@ == self.spec_name(),
    {
        let r = match self {
            VendorType::Insta => "Insta",
            VendorType::Theta => "Theta",
        };
        proof {
            reveal_strlit("Insta");
            reveal_strlit("Theta");
        }
        r
    }
}

impl DeviceType {
    pub fn from_product_id(product_id: u16) -> (r: Option<Self>)
        ensures
            r == device_of(product_id),
    {
        match product_id {
            16422 => Some(DeviceType::Insta360OneX2),
            16423 => Some(DeviceType::Insta360OneX2),
            877 => Some(DeviceType::ThetaZ1),
            _ => None,
        }
    }

    pub open spec fn spec_name(self) -> Seq<char> {
        match self {
            DeviceType::Insta360OneX2 => seq![
                'I', 'n', 's', 't', 'a', '3', '6', '0', ' ', 'O', 'n', 'e', ' ', 'X', '2',
            ],
            DeviceType::ThetaZ1 => seq!['T', 'h', 'e', 't', 'a', ' ', 'Z', '1'],
        }
    }

    /// The model's human-readable name.
    pub fn name(&self) -> (r: &'static str)
        ensures
            r@ == self.spec_name(),
    {
        let r = match self {
            DeviceType::Insta360OneX2 => "Insta360 One X2",
            DeviceType::ThetaZ1 => "Theta Z1",
        };
        proof {
            reveal_strlit("Insta360 One X2");
            reveal_strlit("Theta Z1");
        }
        r
    }
}

/// Whether a USB device with these identifiers is a supported camera.
pub fn is_camera(vendor_id: u16, product_id: u16) -> (r: bool)
    ensures
        r == is_camera_ids(vendor_id, product_id),
{
    VendorType::from_vendor_id(vendor_id).is_some() && DeviceType::from_product_id(product_id).is_some()
}

} // verus!
