use vstd::prelude::*;

verus! {

/// A capturable network interface, as the platform enumerates it.
pub struct InterfaceInfo {
    pub name: String,
    pub index: u32,
    pub mac: [u8; 6],
    pub ipv4: Vec<[u8; 4]>,
}

/// `r` is the position of the first interface whose index is `index`, or none
/// where no interface has it.
pub open spec fn first_with_index(interfaces: Seq<InterfaceInfo>, index: u32, r: Option<usize>) -> bool {
    &&& r is None <==> forall|i: int| 0 <= i < interfaces.len() ==> interfaces[i].index != index
    &&& r is Some ==> r.unwrap() < interfaces.len() && interfaces[r.unwrap() as int].index == index
        && forall|i: int| 0 <= i < r.unwrap() ==> interfaces[i].index != index
}

/// The position of the interface with index `index` in `interfaces`, if any.
pub fn get_interface(interfaces: &Vec<InterfaceInfo>, index: u32) -> (r: Option<usize>)
    ensures
        first_with_index(interfaces@, index, r),
{
    let mut i: usize = 0;
    while i < interfaces.len()
        invariant
            i <= interfaces@.len(),
            forall|j: int| 0 <= j < i ==> interfaces@[j].index != index,
        decreases interfaces@.len() - i,
    {
        if interfaces[i].index == index {
            return Some(i);
        }
        i = i + 1;
    }
    None
}

/// The name and index of each interface, in enumeration order.
pub fn get_interfaces(interfaces: &Vec<InterfaceInfo>) -> (r: Vec<(String, u32)>)
    ensures
        r@.len() == interfaces@.len(),
        forall|i: int| 0 <= i < r@.len() ==> (#[trigger] r@[i]).0@ == interfaces@[i].name@ && r@[i].1
            == interfaces@[i].index,
{
    let mut r: Vec<(String, u32)> = Vec::new();
    let mut i: usize = 0;
    while i < interfaces.len()
        invariant
            i <= interfaces@.len(),
            r@.len() == i,
            forall|k: int| 0 <= k < i ==> (#[trigger] r@[k]).0@ == interfaces@[k].name@ && r@[k].1
                == interfaces@[k].index,
        decreases interfaces@.len() - i,
    {
        r.push((interfaces[i].name.clone(), interfaces[i].index));
        i = i + 1;
    }
    r
}

/// The interface to capture on: the one with index `preferred` where one is
/// asked for, else the first one enumerated.
pub fn capture_interface(interfaces: &Vec<InterfaceInfo>, preferred: Option<u32>) -> (r: Option<usize>)
    ensures
        preferred is None ==> r == (if interfaces@.len() > 0 { Some(0usize) } else { None::<usize> }),
        preferred is Some ==> first_with_index(interfaces@, preferred.unwrap(), r),
{
    match preferred {
        None => if interfaces.len() > 0 { Some(0) } else { None },
        Some(index) => get_interface(interfaces, index),
    }
}

} // verus!
