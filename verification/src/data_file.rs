//! Data files and the partitions they belong to.

use vstd::prelude::*;

verus! {

/// The value of one partition field.
#[derive(Debug)]
pub enum Literal {
    /// A truth value.
    Boolean(bool),
    /// A 32-bit integer.
    Int(i32),
    /// A 64-bit integer.
    Long(i64),
    /// A single-precision number, by its bits. Numbers that are the same have
    /// the same bits here: zero is positive, and there is one NaN.
    Float(u32),
    /// A double-precision number, by its bits, in the same way.
    Double(u64),
    /// A text.
    String(String),
    /// Bytes.
    Binary(Vec<u8>),
    /// A signed 128-bit integer.
    Int128(i128),
    /// An unsigned 128-bit integer.
    UInt128(u128),
}

/// What a [`Literal`] is.
pub enum LiteralView {
    Boolean(bool),
    Int(i32),
    Long(i64),
    Float(u32),
    Double(u64),
    String(Seq<char>),
    Binary(Seq<u8>),
    Int128(i128),
    UInt128(u128),
}

impl View for Literal {
    type V = LiteralView;

    open spec fn view(&self) -> LiteralView {
        match self {
            Literal::Boolean(x) => LiteralView::Boolean(*x),
            Literal::Int(x) => LiteralView::Int(*x),
            Literal::Long(x) => LiteralView::Long(*x),
            Literal::Float(x) => LiteralView::Float(*x),
            Literal::Double(x) => LiteralView::Double(*x),
            Literal::String(x) => LiteralView::String(x@),
            Literal::Binary(x) => LiteralView::Binary(x@),
            Literal::Int128(x) => LiteralView::Int128(*x),
            Literal::UInt128(x) => LiteralView::UInt128(*x),
        }
    }
}

fn same_bytes(a: &Vec<u8>, b: &Vec<u8>) -> (r: bool)
    ensures
        r == (a@ == b@),
{
    if a.len() != b.len() {
        return false;
    }
    let mut i: usize = 0;
    while i < a.len()
        invariant
            i <= a.len(),
            a.len() == b.len(),
            forall|j: int| 0 <= j < i ==> a@[j] == b@[j],
        decreases a.len() - i,
    {
        if a[i] != b[i] {
            return false;
        }
        i = i + 1;
    }
    assert(a@ =~= b@);
    true
}

impl Clone for Literal {
    fn clone(&self) -> (r: Literal)
        ensures
            r@ == self@,
    {
        match self {
            Literal::Boolean(x) => Literal::Boolean(*x),
            Literal::Int(x) => Literal::Int(*x),
            Literal::Long(x) => Literal::Long(*x),
            Literal::Float(x) => Literal::Float(*x),
            Literal::Double(x) => Literal::Double(*x),
            Literal::String(x) => Literal::String(x.clone()),
            Literal::Binary(x) => {
                let bytes = x.clone();
                assert(bytes@ =~= x@);
                Literal::Binary(bytes)
            },
            Literal::Int128(x) => Literal::Int128(*x),
            Literal::UInt128(x) => Literal::UInt128(*x),
        }
    }
}

impl Literal {
    /// The value of a 64-bit integer field.
    pub fn long(value: i64) -> (r: Literal)
        ensures
            r@ == LiteralView::Long(value),
    {
        Literal::Long(value)
    }

    /// Whether two values are the same.
    fn same(&self, other: &Literal) -> (r: bool)
        ensures
            r == (self@ == other@),
    {
        match (self, other) {
            (Literal::Boolean(x), Literal::Boolean(y)) => *x == *y,
            (Literal::Int(x), Literal::Int(y)) => *x == *y,
            (Literal::Long(x), Literal::Long(y)) => *x == *y,
            (Literal::Float(x), Literal::Float(y)) => *x == *y,
            (Literal::Double(x), Literal::Double(y)) => *x == *y,
            (Literal::String(x), Literal::String(y)) => *x == *y,
            (Literal::Binary(x), Literal::Binary(y)) => same_bytes(x, y),
            (Literal::Int128(x), Literal::Int128(y)) => *x == *y,
            (Literal::UInt128(x), Literal::UInt128(y)) => *x == *y,
            _ => false,
        }
    }
}

/// The value of a field, or `None` where it is absent.
pub open spec fn field_view(field: Option<Literal>) -> Option<LiteralView> {
    match field {
        Some(literal) => Some(literal@),
        None => None,
    }
}

/// The partition of a file: a value, or none, for each field of the table's
/// partition spec.
#[derive(Debug)]
pub struct Struct {
    /// The values, in the order of the fields.
    pub fields: Vec<Option<Literal>>,
}

impl View for Struct {
    type V = Seq<Option<LiteralView>>;

    open spec fn view(&self) -> Seq<Option<LiteralView>> {
        self.fields@.map_values(|field: Option<Literal>| field_view(field))
    }
}

impl Clone for Struct {
    fn clone(&self) -> (r: Struct)
        ensures
            r@ == self@,
    {
        let mut fields: Vec<Option<Literal>> = Vec::new();
        let mut i: usize = 0;
        while i < self.fields.len()
            invariant
                i <= self.fields.len(),
                fields.len() == i,
                forall|j: int|
                    0 <= j < i ==> field_view(#[trigger] fields@[j]) == field_view(self.fields@[j]),
            decreases self.fields.len() - i,
        {
            let field = match &self.fields[i] {
                Some(literal) => Some(literal.clone()),
                None => None,
            };
            fields.push(field);
            i = i + 1;
        }
        let r = Struct { fields };
        assert(r@ =~= self@);
        r
    }
}

impl Struct {
    /// The partition of an unpartitioned table.
    pub fn empty() -> (r: Struct)
        ensures
            r@ == Seq::<Option<LiteralView>>::empty(),
    {
        let r = Struct { fields: Vec::new() };
        assert(r@ =~= Seq::<Option<LiteralView>>::empty());
        r
    }

    /// Whether two partitions are the same.
    fn same(&self, other: &Struct) -> (r: bool)
        ensures
            r == (self@ == other@),
    {
        if self.fields.len() != other.fields.len() {
            assert(self@.len() != other@.len());
            return false;
        }
        let mut i: usize = 0;
        while i < self.fields.len()
            invariant
                i <= self.fields.len(),
                self.fields.len() == other.fields.len(),
                forall|j: int| 0 <= j < i ==> #[trigger] self@[j] == other@[j],
            decreases self.fields.len() - i,
        {
            let same = match (&self.fields[i], &other.fields[i]) {
                (Some(a), Some(b)) => a.same(b),
                (None, None) => true,
                _ => false,
            };
            assert(same == (self@[i as int] == other@[i as int]));
            if !same {
                return false;
            }
            i = i + 1;
        }
        assert(self@ =~= other@);
        true
    }
}

/// A set of partitions.
#[derive(Debug)]
pub struct PartitionSet {
    partitions: Vec<Struct>,
}

impl Clone for PartitionSet {
    fn clone(&self) -> (r: PartitionSet)
        ensures
            r@ == self@,
    {
        let mut partitions: Vec<Struct> = Vec::new();
        let mut i: usize = 0;
        while i < self.partitions.len()
            invariant
                i <= self.partitions.len(),
                partitions.len() == i,
                forall|j: int| 0 <= j < i ==> (#[trigger] partitions@[j])@ == self.partitions@[j]@,
            decreases self.partitions.len() - i,
        {
            partitions.push(self.partitions[i].clone());
            i = i + 1;
        }
        proof {
            use_type_invariant(self);
            assert(partitions@.map_values(|partition: Struct| partition@)
                =~= self.partitions@.map_values(|partition: Struct| partition@));
        }
        PartitionSet { partitions }
    }
}

impl View for PartitionSet {
    type V = Set<Seq<Option<LiteralView>>>;

    closed spec fn view(&self) -> Set<Seq<Option<LiteralView>>> {
        self.partitions@.map_values(|partition: Struct| partition@).to_set()
    }
}

/// The partitions that the files belong to.
pub open spec fn partitions_of(files: Seq<DataFile>) -> Set<Seq<Option<LiteralView>>> {
    files.map_values(|file: DataFile| file.partition@).to_set()
}

impl PartitionSet {
    /// No partition stands in the set twice.
    #[verifier::type_invariant]
    closed spec fn inv(self) -> bool {
        self.partitions@.map_values(|partition: Struct| partition@).no_duplicates()
    }

    /// Whether the partition is in the set.
    pub fn contains(&self, partition: &Struct) -> (r: bool)
        ensures
            r == self@.contains(partition@),
    {
        let ghost all = self.partitions@.map_values(|partition: Struct| partition@);
        let mut i: usize = 0;
        while i < self.partitions.len()
            invariant
                i <= self.partitions.len(),
                all == self.partitions@.map_values(|partition: Struct| partition@),
                forall|j: int| 0 <= j < i ==> #[trigger] all[j] != partition@,
            decreases self.partitions.len() - i,
        {
            assert(all[i as int] == self.partitions@[i as int]@);
            if self.partitions[i].same(partition) {
                assert(all.to_set().contains(partition@));
                return true;
            }
            i = i + 1;
        }
        assert(!all.contains(partition@));
        false
    }

    /// The partitions that the files belong to.
    pub fn of(files: &[DataFile]) -> (r: PartitionSet)
        ensures
            r@ == partitions_of(files@),
    {
        let mut partitions: Vec<Struct> = Vec::new();
        let ghost view = |partition: Struct| partition@;
        let ghost all = files@.map_values(|file: DataFile| file.partition@);
        let mut i: usize = 0;
        assert(partitions@.map_values(view).to_set() =~= all.take(0).to_set());
        while i < files.len()
            invariant
                i <= files.len(),
                view == (|partition: Struct| partition@),
                all == files@.map_values(|file: DataFile| file.partition@),
                partitions@.map_values(view).no_duplicates(),
                partitions@.map_values(view).to_set() == all.take(i as int).to_set(),
            decreases files.len() - i,
        {
            let partition = &files[i].partition;
            let ghost before = partitions@.map_values(view);
            let ghost seen = all.take(i as int);
            let mut known = false;
            let mut k: usize = 0;
            while k < partitions.len()
                invariant
                    k <= partitions.len(),
                    view == (|partition: Struct| partition@),
                    before == partitions@.map_values(view),
                    known == exists|j: int| 0 <= j < k && before[j] == partition@,
                decreases partitions.len() - k,
            {
                assert(before[k as int] == partitions@[k as int]@);
                if partitions[k].same(partition) {
                    known = true;
                }
                k = k + 1;
            }
            assert(known == before.contains(partition@));
            if !known {
                partitions.push(partition.clone());
                assert(partitions@.map_values(view) =~= before.push(partition@));
            }
            i = i + 1;
            proof {
                let now = all.take(i as int);
                assert(now =~= seen.push(partition@));
                seen.lemma_push_to_set_commute(partition@);
                before.lemma_push_to_set_commute(partition@);
                assert(before.to_set().contains(partition@) == before.contains(partition@));
                assert(partitions@.map_values(view).to_set() =~= now.to_set());
            }
        }
        assert(all.take(i as int) =~= all);
        PartitionSet { partitions }
    }
}

/// What a file holds.
#[derive(Debug, Clone, Copy, PartialEq, Eq, Structural)]
pub enum DataContentType {
    /// Rows.
    Data,
    /// Positions of deleted rows.
    PositionDeletes,
    /// Values by which rows are deleted.
    EqualityDeletes,
}

/// How a file is encoded.
#[derive(Debug, Clone, Copy, PartialEq, Eq, Structural)]
pub enum DataFileFormat {
    /// Avro.
    Avro,
    /// ORC.
    Orc,
    /// Parquet.
    Parquet,
}

/// A file of a table.
#[derive(Debug)]
pub struct DataFile {
    /// What the file holds.
    pub content: DataContentType,
    /// Where the file is stored.
    pub file_path: String,
    /// How the file is encoded.
    pub file_format: DataFileFormat,
    /// The partition of the file.
    pub partition: Struct,
    /// The number of records in the file.
    pub record_count: u64,
    /// The size of the file.
    pub file_size_in_bytes: u64,
    /// The id of the partition spec that the file was written with.
    pub partition_spec_id: i32,
}

impl Clone for DataFile {
    fn clone(&self) -> (r: DataFile)
        ensures
            r.content == self.content,
            r.file_path@ == self.file_path@,
            r.file_format == self.file_format,
            r.partition@ == self.partition@,
            r.record_count == self.record_count,
            r.file_size_in_bytes == self.file_size_in_bytes,
            r.partition_spec_id == self.partition_spec_id,
    {
        DataFile {
            content: self.content,
            file_path: self.file_path.clone(),
            file_format: self.file_format,
            partition: self.partition.clone(),
            record_count: self.record_count,
            file_size_in_bytes: self.file_size_in_bytes,
            partition_spec_id: self.partition_spec_id,
        }
    }
}

/// The paths of the files, in the same order.
pub open spec fn file_paths(files: Seq<DataFile>) -> Seq<Seq<char>> {
    files.map_values(|file: DataFile| file.file_path@)
}

/// The paths of the files, in no order.
pub open spec fn paths_of(files: Seq<DataFile>) -> Set<Seq<char>> {
    file_paths(files).to_set()
}

/// The paths of the files are those of each of them, in the same order, and no
/// others.
pub proof fn law_paths_are_those_of_the_files(files: Seq<DataFile>, path: Seq<char>)
    ensures
        file_paths(files).len() == files.len(),
        forall|i: int|
            0 <= i < files.len() ==> #[trigger] file_paths(files)[i] == files[i].file_path@,
        paths_of(files).contains(path) <==> exists|i: int|
            0 <= i < files.len() && (#[trigger] files[i]).file_path@ == path,
{
    let paths = file_paths(files);
    if paths_of(files).contains(path) {
        let i = choose|i: int| 0 <= i < paths.len() && paths[i] == path;
        assert(files[i].file_path@ == path);
    }
    if exists|i: int| 0 <= i < files.len() && (#[trigger] files[i]).file_path@ == path {
        let i = choose|i: int| 0 <= i < files.len() && (#[trigger] files[i]).file_path@ == path;
        assert(paths[i] == path);
    }
}

/// The partitions of the files are those of each of them, and no others.
pub proof fn law_partitions_are_those_of_the_files(
    files: Seq<DataFile>,
    partition: Seq<Option<LiteralView>>,
)
    ensures
        partitions_of(files).contains(partition) <==> exists|i: int|
            0 <= i < files.len() && (#[trigger] files[i]).partition@ == partition,
{
    let partitions = files.map_values(|file: DataFile| file.partition@);
    if partitions_of(files).contains(partition) {
        let i = choose|i: int| 0 <= i < partitions.len() && partitions[i] == partition;
        assert(files[i].partition@ == partition);
    }
    if exists|i: int| 0 <= i < files.len() && (#[trigger] files[i]).partition@ == partition {
        let i = choose|i: int|
            0 <= i < files.len() && (#[trigger] files[i]).partition@ == partition;
        assert(partitions[i] == partition);
    }
}

/// Two values are the same exactly if they are of the same type and hold the
/// same.
pub proof fn law_values_are_told_apart(a: Literal, b: Literal)
    ensures
        a@ == b@ <==> match (a, b) {
            (Literal::Boolean(x), Literal::Boolean(y)) => x == y,
            (Literal::Int(x), Literal::Int(y)) => x == y,
            (Literal::Long(x), Literal::Long(y)) => x == y,
            (Literal::Float(x), Literal::Float(y)) => x == y,
            (Literal::Double(x), Literal::Double(y)) => x == y,
            (Literal::String(x), Literal::String(y)) => x@ == y@,
            (Literal::Binary(x), Literal::Binary(y)) => x@ == y@,
            (Literal::Int128(x), Literal::Int128(y)) => x == y,
            (Literal::UInt128(x), Literal::UInt128(y)) => x == y,
            _ => false,
        },
{
}

/// Two partitions are the same exactly if they have as many fields, and each
/// field is absent in both or has the same value in both.
pub proof fn law_partitions_are_told_apart(a: Struct, b: Struct)
    ensures
        a@ == b@ <==> a.fields@.len() == b.fields@.len() && forall|i: int|
            0 <= i < a.fields@.len() ==> match (#[trigger] a.fields@[i], b.fields@[i]) {
                (Some(x), Some(y)) => x@ == y@,
                (None, None) => true,
                _ => false,
            },
{
    assert(a@.len() == a.fields@.len());
    assert(b@.len() == b.fields@.len());
    if a@ == b@ {
        assert forall|i: int| 0 <= i < a.fields@.len() implies match (
            #[trigger] a.fields@[i],
            b.fields@[i],
        ) {
            (Some(x), Some(y)) => x@ == y@,
            (None, None) => true,
            _ => false,
        } by {
            assert(a@[i] == b@[i]);
        }
    } else if a.fields@.len() == b.fields@.len() && forall|i: int|
        0 <= i < a.fields@.len() ==> match (#[trigger] a.fields@[i], b.fields@[i]) {
            (Some(x), Some(y)) => x@ == y@,
            (None, None) => true,
            _ => false,
        } {
        assert forall|i: int| 0 <= i < a@.len() implies #[trigger] a@[i] == b@[i] by {
            let x = a.fields@[i];
        }
        assert(a@ =~= b@);
    }
}

} // verus!
