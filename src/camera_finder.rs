use crate::device_type::{device_of, is_camera, is_camera_ids, DeviceType};
use crate::text::joined;
use crate::usb_profile::{UsbBus, UsbMedia, UsbNode, UsbRoot, UsbVolume};
use vstd::prelude::*;

verus! {

/// Where the camera's volume is mounted, and the identity of the camera.
#[derive(Debug)]
pub struct CameraInfo {
    pub mount_point: String,
    pub device_id: String,
}

pub open spec fn id_or_zero(id: Option<u16>) -> u16 {
    match id {
        Some(v) => v,
        None => 0,
    }
}

/// Whether a USB node is a supported camera; a missing identifier counts
/// as 0, which no camera has.
pub open spec fn node_is_camera(n: UsbNode) -> bool {
    is_camera_ids(id_or_zero(n.vendor_id), id_or_zero(n.product_id))
}

/// The index of the first camera among `nodes` at or after `j`.
pub open spec fn camera_in_nodes(nodes: Seq<UsbNode>, j: int) -> Option<int>
    decreases nodes.len() - j,
{
    if j < 0 || j >= nodes.len() {
        None
    } else if node_is_camera(nodes[j]) {
        Some(j)
    } else {
        camera_in_nodes(nodes, j + 1)
    }
}

/// The bus and node index of the first camera attached directly to a bus,
/// looking at the buses from `i` on, in order.
pub open spec fn camera_in_buses(buses: Seq<UsbBus>, i: int) -> Option<(int, int)>
    decreases buses.len() - i,
{
    if i < 0 || i >= buses.len() {
        None
    } else {
        match camera_in_nodes(buses[i].items@, 0) {
            Some(j) => Some((i, j)),
            None => camera_in_buses(buses, i + 1),
        }
    }
}

/// The mount point of the first mounted volume among `vols` from `k` on.
pub open spec fn mount_in_volumes(vols: Seq<UsbVolume>, k: int) -> Option<Seq<char>>
    decreases vols.len() - k,
{
    if k < 0 || k >= vols.len() {
        None
    } else {
        match vols[k].mount_point {
            Some(m) => Some(m@),
            None => mount_in_volumes(vols, k + 1),
        }
    }
}

/// The mount point of the first mounted volume on the media from `m` on.
pub open spec fn mount_in_media(media: Seq<UsbMedia>, m: int) -> Option<Seq<char>>
    decreases media.len() - m,
{
    if m < 0 || m >= media.len() {
        None
    } else {
        let here = match media[m].volumes {
            Some(v) => mount_in_volumes(v@, 0),
            None => None,
        };
        match here {
            Some(p) => Some(p),
            None => mount_in_media(media, m + 1),
        }
    }
}

/// The mount point of the first mounted volume of a device.
pub open spec fn node_mount(n: UsbNode) -> Option<Seq<char>> {
    match n.media {
        Some(m) => mount_in_media(m@, 0),
        None => None,
    }
}

pub open spec fn serial_sep() -> Seq<char> {
    seq![':', 's', 'n', ':']
}

pub open spec fn unknown_serial() -> Seq<char> {
    seq!['u', 'n', 'k', 'n', 'o', 'w', 'n']
}

/// The identity of a camera: its model's name, `:sn:`, and its serial number
/// (`unknown` when the profiler gives none).
pub open spec fn camera_device_id(n: UsbNode) -> Seq<char> {
    let model = match device_of(id_or_zero(n.product_id)) {
        Some(d) => d.spec_name(),
        None => Seq::empty(),
    };
    let serial = match n.serial_num {
        Some(s) => s@,
        None => unknown_serial(),
    };
    model + serial_sep() + serial
}

/// The camera volume of a USB inventory: the first camera attached directly
/// to a bus, and the first mounted volume among its media; `None` when there
/// is no camera, or the first camera has no mounted volume.
pub open spec fn located_camera(root: UsbRoot) -> Option<(Seq<char>, Seq<char>)> {
    match camera_in_buses(root.spusb_data_type@, 0) {
        Some((i, j)) => {
            let node = root.spusb_data_type@[i].items@[j];
            match node_mount(node) {
                Some(m) => Some((m, camera_device_id(node))),
                None => None,
            }
        },
        None => None,
    }
}

fn find_camera_in_nodes(nodes: &Vec<UsbNode>) -> (r: Option<usize>)
    ensures
        r matches Some(j) ==> camera_in_nodes(nodes@, 0) == Some(j as int) && j < nodes@.len(),
        r is None ==> camera_in_nodes(nodes@, 0) is None,
{
    let mut j: usize = 0;
    while j < nodes.len()
        invariant
            j <= nodes@.len(),
            camera_in_nodes(nodes@, 0) == camera_in_nodes(nodes@, j as int),
        decreases nodes@.len() - j,
    {
        let n = &nodes[j];
        let v = match n.vendor_id {
            Some(v) => v,
            None => 0,
        };
        let p = match n.product_id {
            Some(p) => p,
            None => 0,
        };
        if is_camera(v, p) {
            return Some(j);
        }
        j = j + 1;
    }
    None
}

fn find_camera(buses: &Vec<UsbBus>) -> (r: Option<(usize, usize)>)
    ensures
        r matches Some((i, j)) ==> camera_in_buses(buses@, 0) == Some((i as int, j as int)) && i
            < buses@.len() && j < buses@[i as int].items@.len(),
        r is None ==> camera_in_buses(buses@, 0) is None,
{
    let mut i: usize = 0;
    while i < buses.len()
        invariant
            i <= buses@.len(),
            camera_in_buses(buses@, 0) == camera_in_buses(buses@, i as int),
        decreases buses@.len() - i,
    {
        match find_camera_in_nodes(&buses[i].items) {
            Some(j) => {
                return Some((i, j));
            },
            None => {},
        }
        i = i + 1;
    }
    None
}

fn find_mount_in_volumes(vols: &Vec<UsbVolume>) -> (r: Option<String>)
    ensures
        r matches Some(m) ==> mount_in_volumes(vols@, 0) == Some(m@),
        r is None ==> mount_in_volumes(vols@, 0) is None,
{
    let mut k: usize = 0;
    while k < vols.len()
        invariant
            k <= vols@.len(),
            mount_in_volumes(vols@, 0) == mount_in_volumes(vols@, k as int),
        decreases vols@.len() - k,
    {
        match &vols[k].mount_point {
            Some(m) => {
                return Some(m.clone());
            },
            None => {},
        }
        k = k + 1;
    }
    None
}

fn find_mount(node: &UsbNode) -> (r: Option<String>)
    ensures
        r matches Some(m) ==> node_mount(*node) == Some(m@),
        r is None ==> node_mount(*node) is None,
{
    let media = match &node.media {
        Some(media) => media,
        None => {
            return None;
        },
    };
    let mut m: usize = 0;
    while m < media.len()
        invariant
            m <= media@.len(),
            node.media == Some(*media),
            mount_in_media(media@, 0) == mount_in_media(media@, m as int),
        decreases media@.len() - m,
    {
        let found = match &media[m].volumes {
            Some(v) => find_mount_in_volumes(v),
            None => None,
        };
        match found {
            Some(p) => {
                return Some(p);
            },
            None => {},
        }
        m = m + 1;
    }
    None
}

/// Finds the camera volume in a USB inventory: the first camera attached
/// directly to a bus, and the first mounted volume among its media. Its
/// identity is its model's name, `:sn:` and its serial number.
pub fn find_camera_volume(root: &UsbRoot) -> (r: Option<CameraInfo>)
    ensures
        r is Some <==> located_camera(*root) is Some,
        r matches Some(info) ==> located_camera(*root) == Some(
            (info.mount_point@, info.device_id@),
        ),
{
    let (i, j) = match find_camera(&root.spusb_data_type) {
        Some(found) => found,
        None => {
            return None;
        },
    };
    let node = &root.spusb_data_type[i].items[j];
    let mount_point = match find_mount(node) {
        Some(m) => m,
        None => {
            return None;
        },
    };
    let product = match node.product_id {
        Some(p) => p,
        None => 0,
    };
    let model: &str = match DeviceType::from_product_id(product) {
        Some(d) => d.name(),
        None => "",
    };
    let sep = ":sn:";
    let unknown = "unknown";
    proof {
        reveal_strlit("");
        reveal_strlit(":sn:");
        reveal_strlit("unknown");
    }
    let with_sep = joined(model, sep);
    let device_id = match &node.serial_num {
        Some(s) => with_sep.concat(s.as_str()),
        None => with_sep.concat(unknown),
    };
    assert(device_id@ =~= camera_device_id(*node));
    Some(CameraInfo { mount_point, device_id })
}

} // verus!
