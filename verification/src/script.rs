//! The device tree as a script: the calls, in order, that write it out.

use vstd::prelude::*;
use vstd::slice::slice_to_vec;

verus! {

/// One step of writing a device tree.
#[derive(Debug, PartialEq, Eq)]
pub enum FdtOp {
    /// Opens a node of the given name below the node that is open.
    BeginNode(String),
    /// Closes the node that was opened last.
    EndNode,
    /// A property without a value.
    PropertyNull(String),
    /// A property that holds one cell.
    PropertyU32(String, u32),
    /// A property that holds one double cell.
    PropertyU64(String, u64),
    /// A property that holds a string.
    PropertyString(String, String),
    /// A property that holds a list of strings.
    PropertyStringList(String, Vec<String>),
    /// A property that holds a list of cells.
    PropertyArrayU32(String, Vec<u32>),
    /// A property that holds a list of double cells.
    PropertyArrayU64(String, Vec<u64>),
    /// A property that holds raw bytes.
    Property(String, Vec<u8>),
    /// The nodes that describe the Android file system table.
    AndroidFstab,
}

/// What an [`FdtOp`] stands for.
#[verifier::ext_equal]
pub enum Op {
    BeginNode(Seq<char>),
    EndNode,
    PropertyNull(Seq<char>),
    PropertyU32(Seq<char>, u32),
    PropertyU64(Seq<char>, u64),
    PropertyString(Seq<char>, Seq<char>),
    PropertyStringList(Seq<char>, Seq<Seq<char>>),
    PropertyArrayU32(Seq<char>, Seq<u32>),
    PropertyArrayU64(Seq<char>, Seq<u64>),
    Property(Seq<char>, Seq<u8>),
    AndroidFstab,
}

impl View for FdtOp {
    type V = Op;

    open spec fn view(&self) -> Op {
        match self {
            FdtOp::BeginNode(name) => Op::BeginNode(name@),
            FdtOp::EndNode => Op::EndNode,
            FdtOp::PropertyNull(name) => Op::PropertyNull(name@),
            FdtOp::PropertyU32(name, value) => Op::PropertyU32(name@, *value),
            FdtOp::PropertyU64(name, value) => Op::PropertyU64(name@, *value),
            FdtOp::PropertyString(name, value) => Op::PropertyString(name@, value@),
            FdtOp::PropertyStringList(name, values) => Op::PropertyStringList(
                name@,
                values@.map_values(|value: String| value@),
            ),
            FdtOp::PropertyArrayU32(name, cells) => Op::PropertyArrayU32(name@, cells@),
            FdtOp::PropertyArrayU64(name, cells) => Op::PropertyArrayU64(name@, cells@),
            FdtOp::Property(name, bytes) => Op::Property(name@, bytes@),
            FdtOp::AndroidFstab => Op::AndroidFstab,
        }
    }
}

/// A device tree under construction.
#[derive(Debug, PartialEq, Eq)]
pub struct FdtScript {
    pub ops: Vec<FdtOp>,
}

impl View for FdtScript {
    type V = Seq<Op>;

    open spec fn view(&self) -> Seq<Op> {
        self.ops@.map_values(|op: FdtOp| op@)
    }
}

impl FdtScript {
    /// An empty script.
    pub fn new() -> (script: FdtScript)
        ensures
            script@ == Seq::<Op>::empty(),
    {
        FdtScript { ops: Vec::new() }
    }

    fn push(&mut self, op: FdtOp)
        ensures
            final(self)@ == old(self)@.push(op@),
    {
        self.ops.push(op);
        assert(self@ =~= old(self)@.push(op@));
    }

    /// Opens a node.
    pub fn begin_node(&mut self, name: &str)
        ensures
            final(self)@ == old(self)@.push(Op::BeginNode(name@)),
    {
        self.push(FdtOp::BeginNode(name.to_owned()));
    }

    /// Closes the node that was opened last.
    pub fn end_node(&mut self)
        ensures
            final(self)@ == old(self)@.push(Op::EndNode),
    {
        self.push(FdtOp::EndNode);
    }

    /// Writes a property without a value.
    pub fn property_null(&mut self, name: &str)
        ensures
            final(self)@ == old(self)@.push(Op::PropertyNull(name@)),
    {
        self.push(FdtOp::PropertyNull(name.to_owned()));
    }

    /// Writes a property of one cell.
    pub fn property_u32(&mut self, name: &str, value: u32)
        ensures
            final(self)@ == old(self)@.push(Op::PropertyU32(name@, value)),
    {
        self.push(FdtOp::PropertyU32(name.to_owned(), value));
    }

    /// Writes a property of one double cell.
    pub fn property_u64(&mut self, name: &str, value: u64)
        ensures
            final(self)@ == old(self)@.push(Op::PropertyU64(name@, value)),
    {
        self.push(FdtOp::PropertyU64(name.to_owned(), value));
    }

    /// Writes a property that holds a string.
    pub fn property_string(&mut self, name: &str, value: &str)
        ensures
            final(self)@ == old(self)@.push(Op::PropertyString(name@, value@)),
    {
        self.push(FdtOp::PropertyString(name.to_owned(), value.to_owned()));
    }

    /// Writes a property that holds a list of strings.
    pub fn property_string_list(&mut self, name: &str, values: &Vec<&str>)
        ensures
            final(self)@ == old(self)@.push(
                Op::PropertyStringList(name@, values@.map_values(|value: &str| value@)),
            ),
    {
        let mut owned: Vec<String> = Vec::new();
        for i in 0..values.len()
            invariant
                owned.len() == i,
                forall|k: int| 0 <= k < i ==> (#[trigger] owned[k])@ == values[k]@,
        {
            owned.push(values[i].to_owned());
        }
        assert(owned@.map_values(|value: String| value@) =~= values@.map_values(
            |value: &str| value@,
        ));
        self.push(FdtOp::PropertyStringList(name.to_owned(), owned));
    }

    /// Writes a property that holds a list of cells.
    pub fn property_array_u32(&mut self, name: &str, cells: &[u32])
        ensures
            final(self)@ == old(self)@.push(Op::PropertyArrayU32(name@, cells@)),
    {
        self.push(FdtOp::PropertyArrayU32(name.to_owned(), slice_to_vec(cells)));
    }

    /// Writes a property that holds a list of double cells.
    pub fn property_array_u64(&mut self, name: &str, cells: &[u64])
        ensures
            final(self)@ == old(self)@.push(Op::PropertyArrayU64(name@, cells@)),
    {
        self.push(FdtOp::PropertyArrayU64(name.to_owned(), slice_to_vec(cells)));
    }

    /// Writes a property that holds raw bytes.
    pub fn property(&mut self, name: &str, bytes: &[u8])
        ensures
            final(self)@ == old(self)@.push(Op::Property(name@, bytes@)),
    {
        self.push(FdtOp::Property(name.to_owned(), slice_to_vec(bytes)));
    }

    /// Asks for the nodes of the Android file system table.
    pub fn android_fstab(&mut self)
        ensures
            final(self)@ == old(self)@.push(Op::AndroidFstab),
    {
        self.push(FdtOp::AndroidFstab);
    }
}

} // verus!
