//! The source of a workload, put together from its buffers.

use crate::kernel::KernelBytes;
use crate::text::{decimal, decimal_spec, signed_decimal, signed_decimal_spec};
use vstd::prelude::*;
use vstd::string::StringExecFns;

verus! {

/// A buffer that a workload writes its results to, and the number of
/// those that wait for it to be complete.
#[derive(Default, Hash, Clone, Debug, PartialEq, Eq)]
pub struct OutputBuffer {
    pub name: String,
    pub size: usize,
    pub count: usize,
}

/// The name of the cell by which waiter `index` of the buffer `name`
/// learns that the buffer is complete.
pub open spec fn completion_slot(name: Seq<char>, index: nat) -> Seq<char> {
    "_COMPLETION_SLOT_"@ + name + "_"@ + decimal_spec(index)
}

/// The name of the cell that counts the waiters of the buffer `name`.
pub open spec fn completion_count(name: Seq<char>) -> Seq<char> {
    "_COMPLETION_COUNT_"@ + name
}

fn completion_slot_name(name: &str, index: usize) -> (r: String)
    ensures
        r@ == completion_slot(name@, index as nat),
{
    let number = decimal(index as u64);
    String::from_str("_COMPLETION_SLOT_").concat(name).concat("_").concat(number.as_str())
}

fn completion_count_name(name: &str) -> (r: String)
    ensures
        r@ == completion_count(name@),
{
    String::from_str("_COMPLETION_COUNT_").concat(name)
}

impl OutputBuffer {
    /// The name of the cell by which waiter `index` learns that the buffer
    /// is complete.
    pub fn output_completion(&self, index: usize) -> (r: String)
        requires
            index < self.count,
        ensures
            r@ == completion_slot(self.name@, index as nat),
    {
        completion_slot_name(self.name.as_str(), index)
    }

    /// The name of the cell that counts the waiters.
    pub fn output_count(&self) -> (r: String)
        ensures
            r@ == completion_count(self.name@),
    {
        completion_count_name(self.name.as_str())
    }

    /// The name of the buffer itself.
    pub fn output_buffer(&self) -> (r: String)
        ensures
            r@ == self.name@,
    {
        self.name.clone()
    }
}

/// The source of a workload as it grows: the buffers declared so far, and
/// the code of each core.
#[derive(Default, Clone, Debug, Hash, PartialEq, Eq)]
pub struct WorkloadBuilder {
    pub available_space: u64,
    pub inputs: Vec<String>,
    pub outputs: Vec<OutputBuffer>,
    pub global: String,
    pub brisc: String,
    pub ncrisc: String,
    pub trisc0: String,
    pub trisc1: String,
    pub trisc2: String,
}

/// The declaration of a static of the given name, its element type, its
/// length and whether it can be written to, indented by `indent`, with
/// `tail` behind its last line.
pub open spec fn declaration(
    indent: Seq<char>,
    tail: Seq<char>,
    mutable: bool,
    name: Seq<char>,
    element: Seq<char>,
    len: Seq<char>,
) -> Seq<char> {
    "\n"@ + indent + "#[unsafe(no_mangle)]\n"@ + indent + (if mutable {
        "static mut "@
    } else {
        "static "@
    }) + name + ": NocAlignment<"@ + element + ", "@ + len + "> = NocAlignment::new(0);\n"@ + tail
}

fn declare(indent: &str, tail: &str, mutable: bool, name: &str, element: &str, len: &str) -> (r:
    String)
    ensures
        r@ == declaration(indent@, tail@, mutable, name@, element@, len@),
{
    let r = String::from_str("\n").concat(indent).concat("#[unsafe(no_mangle)]\n").concat(indent);
    let r = if mutable {
        r.concat("static mut ")
    } else {
        r.concat("static ")
    };
    r.concat(name).concat(": NocAlignment<").concat(element).concat(", ").concat(len).concat(
        "> = NocAlignment::new(0);\n",
    ).concat(tail)
}

/// The declaration of an input buffer of `size` bytes.
pub open spec fn input_declaration(name: Seq<char>, size: nat) -> Seq<char> {
    declaration("            "@, "          "@, false, name, "u8"@, decimal_spec(size))
}

/// The declaration of the cell of waiter `index` of an output buffer.
pub open spec fn slot_declaration(name: Seq<char>, index: nat) -> Seq<char> {
    declaration(
        "                "@,
        "            "@,
        true,
        completion_slot(name, index),
        "u32"@,
        "1"@,
    )
}

/// The declarations of the cells of the first `n` waiters.
pub open spec fn slot_declarations(name: Seq<char>, n: nat) -> Seq<char>
    decreases n,
{
    if n == 0 {
        Seq::empty()
    } else {
        slot_declarations(name, (n - 1) as nat) + slot_declaration(name, (n - 1) as nat)
    }
}

/// The declarations of an output buffer of `size` bytes with `slots`
/// waiters: the cells of the waiters, their count, and the buffer.
pub open spec fn output_declaration(name: Seq<char>, size: nat, slots: nat) -> Seq<char> {
    slot_declarations(name, slots) + declaration(
        "            "@,
        "          "@,
        true,
        completion_count(name),
        "u8"@,
        "4"@,
    ) + declaration("            "@, "          "@, true, name, "u8"@, decimal_spec(size))
}

impl WorkloadBuilder {
    /// Declares an input buffer of `size` bytes.
    pub fn input_buffer(&mut self, name: &str, size: usize)
        ensures
            final(self).global@ == old(self).global@ + input_declaration(name@, size as nat),
            final(self).inputs@.len() == old(self).inputs@.len() + 1,
            final(self).inputs@.last()@ == name@,
            final(self).inputs@.drop_last() == old(self).inputs@,
            final(self).outputs == old(self).outputs,
            final(self).available_space == old(self).available_space,
            final(self).brisc == old(self).brisc,
            final(self).ncrisc == old(self).ncrisc,
            final(self).trisc0 == old(self).trisc0,
            final(self).trisc1 == old(self).trisc1,
            final(self).trisc2 == old(self).trisc2,
    {
        let size_text = decimal(size as u64);
        let text = declare("            ", "          ", false, name, "u8", size_text.as_str());
        self.global.append(text.as_str());
        self.inputs.push(String::from_str(name));
        assert(self.inputs@.drop_last() =~= old(self).inputs@);
    }

    /// Declares an output buffer of `size` bytes that `completion_slots`
    /// wait for, and says how to refer to it.
    pub fn output_buffer(&mut self, name: &str, size: usize, completion_slots: usize) -> (r:
        OutputBuffer)
        ensures
            final(self).global@ == old(self).global@ + output_declaration(
                name@,
                size as nat,
                completion_slots as nat,
            ),
            r.name@ == name@,
            r.size == size,
            r.count == completion_slots,
            final(self).inputs == old(self).inputs,
            final(self).outputs == old(self).outputs,
            final(self).available_space == old(self).available_space,
            final(self).brisc == old(self).brisc,
            final(self).ncrisc == old(self).ncrisc,
            final(self).trisc0 == old(self).trisc0,
            final(self).trisc1 == old(self).trisc1,
            final(self).trisc2 == old(self).trisc2,
    {
        let ghost start = self.global@;
        let mut i: usize = 0;
        while i < completion_slots
            invariant
                i <= completion_slots,
                self.global@ == start + slot_declarations(name@, i as nat),
                self.inputs == old(self).inputs,
                self.outputs == old(self).outputs,
                self.available_space == old(self).available_space,
                self.brisc == old(self).brisc,
                self.ncrisc == old(self).ncrisc,
                self.trisc0 == old(self).trisc0,
                self.trisc1 == old(self).trisc1,
                self.trisc2 == old(self).trisc2,
            decreases completion_slots - i,
        {
            let slot = completion_slot_name(name, i);
            let text = declare("                ", "            ", true, slot.as_str(), "u32", "1");
            self.global.append(text.as_str());
            assert(self.global@ =~= start + slot_declarations(name@, (i + 1) as nat));
            i += 1;
        }
        let count = completion_count_name(name);
        let text = declare("            ", "          ", true, count.as_str(), "u8", "4");
        self.global.append(text.as_str());
        let size_text = decimal(size as u64);
        let text = declare("            ", "          ", true, name, "u8", size_text.as_str());
        self.global.append(text.as_str());
        assert(self.global@ =~= start + output_declaration(
            name@,
            size as nat,
            completion_slots as nat,
        ));
        OutputBuffer { name: String::from_str(name), size, count: completion_slots }
    }
}

/// The bytes that one segment adds to a binary: its address, as four
/// bytes, at the end; then, the binary grown with zeros where it is too
/// short, the segment's bytes at the place of its address.
pub open spec fn binary_with(binary: Seq<u8>, segment: KernelBytes) -> Seq<u8> {
    let with_addr = binary + crate::bytes::word_bytes(segment.addr);
    let end = segment.addr + segment.data.0@.len();
    let grown = if end > with_addr.len() {
        with_addr + Seq::new((end - with_addr.len()) as nat, |i: int| 0u8)
    } else {
        with_addr
    };
    Seq::new(
        grown.len(),
        |i: int|
            if segment.addr <= i < end {
                segment.data.0@[i - segment.addr]
            } else {
                grown[i]
            },
    )
}

/// The binary that the segments make, one after the other.
pub open spec fn binary_of(segments: Seq<KernelBytes>) -> Seq<u8>
    decreases segments.len(),
{
    if segments.len() == 0 {
        Seq::empty()
    } else {
        binary_with(binary_of(segments.drop_last()), segments.last())
    }
}

/// Puts the segments of a workload together into one binary.
pub fn get_binary(segments: &Vec<KernelBytes>) -> (r: Vec<u8>)
    requires
        forall|i: int|
            0 <= i < segments@.len() ==> (#[trigger] segments@[i]).addr + segments@[i].data.0@.len()
                <= usize::MAX,
    ensures
        r@ == binary_of(segments@),
{
    let mut binary: Vec<u8> = Vec::new();
    let mut s: usize = 0;
    while s < segments.len()
        invariant
            s <= segments@.len(),
            forall|i: int|
                0 <= i < segments@.len() ==> (#[trigger] segments@[i]).addr
                    + segments@[i].data.0@.len() <= usize::MAX,
            binary@ == binary_of(segments@.take(s as int)),
        decreases segments@.len() - s,
    {
        let segment = &segments[s];
        let ghost before = binary@;
        let mut addr_bytes = crate::bytes::word_to_bytes(segment.addr);
        binary.append(&mut addr_bytes);
        let ghost with_addr = binary@;
        let start = segment.addr as usize;
        let len = segment.len();
        let end = start + len;
        while binary.len() < end
            invariant
                with_addr.len() <= binary@.len(),
                binary@.len() <= end || end <= with_addr.len(),
                end <= with_addr.len() ==> binary@.len() == with_addr.len(),
                binary@ == with_addr + Seq::new(
                    (binary@.len() - with_addr.len()) as nat,
                    |i: int| 0u8,
                ),
            decreases end - binary@.len(),
        {
            binary.push(0);
            assert(binary@ =~= with_addr + Seq::new(
                (binary@.len() - with_addr.len()) as nat,
                |i: int| 0u8,
            ));
        }
        let ghost grown = binary@;
        assert(grown =~= if end > with_addr.len() {
            with_addr + Seq::new((end - with_addr.len()) as nat, |i: int| 0u8)
        } else {
            with_addr
        });
        let mut i: usize = 0;
        while i < len
            invariant
                i <= len,
                len == segment.data.0@.len(),
                start + len == end,
                end <= binary@.len(),
                binary@.len() == grown.len(),
                forall|k: int|
                    0 <= k < binary@.len() ==> binary@[k] == if start <= k < start + i {
                        segment.data.0@[k - start]
                    } else {
                        grown[k]
                    },
            decreases len - i,
        {
            binary[start + i] = segment.data.0[i];
            i += 1;
        }
        proof {
            let upto = segments@.take(s + 1);
            assert(upto.drop_last() =~= segments@.take(s as int));
            assert(upto.last() == segments@[s as int]);
            assert(binary@ =~= binary_with(before, segments@[s as int]));
        }
        s += 1;
    }
    assert(segments@.take(s as int) =~= segments@);
    binary
}

/// The name of the counter of the loop over dimension `index`.
pub open spec fn it_var(index: nat) -> Seq<char> {
    "_"@ + decimal_spec(index) + "_it"@
}

/// The name of the index of tensor `tensor` as far as dimension `index`.
pub open spec fn dim_var(tensor: nat, index: nat) -> Seq<char> {
    "_"@ + decimal_spec(tensor) + "_tensor_"@ + decimal_spec(index) + "_dim_index"@
}

/// The name of the index of an element of tensor `tensor`.
pub open spec fn final_var(tensor: nat) -> Seq<char> {
    "_"@ + decimal_spec(tensor) + "_tensor_index"@
}

/// The line that opens the loop over dimension `index`, of `dim` elements.
pub open spec fn loop_open(index: nat, dim: int) -> Seq<char> {
    "for "@ + it_var(index) + " in 0.."@ + signed_decimal_spec(dim) + "u32 {"@
}

/// The line that moves the index of tensor `tensor` on by the stride of
/// dimension `index`: from nothing for the first dimension, else from the
/// index as far as the dimension before.
pub open spec fn stride_line(tensor: nat, index: nat, stride: nat) -> Seq<char> {
    "let "@ + dim_var(tensor, index) + " = "@ + (if index == 0 {
        Seq::<char>::empty()
    } else {
        dim_var(tensor, (index - 1) as nat) + " + "@
    }) + it_var(index) + " * "@ + decimal_spec(stride) + ";"@
}

/// The line that names the index of an element of tensor `tensor`, for
/// tensors of `dims` dimensions.
pub open spec fn final_line(tensor: nat, dims: nat) -> Seq<char> {
    "let "@ + final_var(tensor) + " = "@ + dim_var(tensor, (dims - 1) as nat) + ";"@
}

/// The lines of the loop over dimension `index`: its opening, and a line
/// for each of the first `n` tensors.
pub open spec fn level_lines(shape: Seq<i64>, strides: Seq<&[usize]>, index: int, n: int) -> Seq<
    Seq<char>,
>
    decreases n,
{
    if n <= 0 {
        seq![loop_open(index as nat, shape[index] as int)]
    } else {
        level_lines(shape, strides, index, n - 1).push(
            stride_line((n - 1) as nat, index as nat, strides[n - 1]@[index] as nat),
        )
    }
}

/// The lines of the loops over the first `n` dimensions.
pub open spec fn loops_lines(shape: Seq<i64>, strides: Seq<&[usize]>, n: int) -> Seq<Seq<char>>
    decreases n,
{
    if n <= 0 {
        Seq::empty()
    } else {
        loops_lines(shape, strides, n - 1) + level_lines(
            shape,
            strides,
            n - 1,
            strides.len() as int,
        )
    }
}

/// The lines that name the indexes of the elements of the first `n`
/// tensors.
pub open spec fn final_lines(dims: nat, n: int) -> Seq<Seq<char>>
    decreases n,
{
    if n <= 0 {
        Seq::empty()
    } else {
        final_lines(dims, n - 1).push(final_line((n - 1) as nat, dims))
    }
}

/// The names of the indexes of the elements of the first `n` tensors.
pub open spec fn final_names(n: int) -> Seq<Seq<char>>
    decreases n,
{
    if n <= 0 {
        Seq::empty()
    } else {
        final_names(n - 1).push(final_var((n - 1) as nat))
    }
}

/// `n` closing braces, each a line.
pub open spec fn closing_lines(n: int) -> Seq<Seq<char>>
    decreases n,
{
    if n <= 0 {
        Seq::empty()
    } else {
        closing_lines(n - 1).push("}"@)
    }
}

/// The lines of the loops over all dimensions around `body`. Without
/// dimensions there is nothing, not even the body.
pub open spec fn zip_lines(shape: Seq<i64>, strides: Seq<&[usize]>, body: Seq<char>) -> Seq<
    Seq<char>,
> {
    loops_lines(shape, strides, shape.len() as int) + (if shape.len() > 0 {
        final_lines(shape.len(), strides.len() as int).push(body)
    } else {
        Seq::empty()
    }) + closing_lines(shape.len() as int)
}

/// The lines, each but the last followed by a line break.
pub open spec fn joined(lines: Seq<Seq<char>>) -> Seq<char>
    decreases lines.len(),
{
    if lines.len() == 0 {
        Seq::empty()
    } else if lines.len() == 1 {
        lines[0]
    } else {
        joined(lines.drop_last()) + "\n"@ + lines.last()
    }
}

/// The texts of strings.
pub open spec fn texts(lines: Seq<String>) -> Seq<Seq<char>> {
    lines.map_values(|s: String| s@)
}

fn join_lines(lines: &Vec<String>) -> (r: String)
    ensures
        r@ == joined(texts(lines@)),
{
    let mut r = String::new();
    let mut i: usize = 0;
    while i < lines.len()
        invariant
            i <= lines@.len(),
            r@ == joined(texts(lines@).take(i as int)),
        decreases lines@.len() - i,
    {
        proof {
            let upto = texts(lines@).take(i + 1);
            assert(upto.drop_last() =~= texts(lines@).take(i as int));
            assert(upto.last() == lines@[i as int]@);
            assert(texts(lines@).take(0).len() == 0);
        }
        if i > 0 {
            r.append("\n");
        }
        r.append(lines[i].as_str());
        proof {
            if i == 0 {
                assert(r@ =~= lines@[0]@);
            }
        }
        i += 1;
    }
    assert(texts(lines@).take(i as int) =~= texts(lines@));
    r
}

fn it_var_name(index: usize) -> (r: String)
    ensures
        r@ == it_var(index as nat),
{
    let number = decimal(index as u64);
    String::from_str("_").concat(number.as_str()).concat("_it")
}

fn dim_var_name(tensor: usize, index: usize) -> (r: String)
    ensures
        r@ == dim_var(tensor as nat, index as nat),
{
    let t = decimal(tensor as u64);
    let i = decimal(index as u64);
    String::from_str("_").concat(t.as_str()).concat("_tensor_").concat(i.as_str()).concat(
        "_dim_index",
    )
}

fn final_var_name(tensor: usize) -> (r: String)
    ensures
        r@ == final_var(tensor as nat),
{
    let t = decimal(tensor as u64);
    String::from_str("_").concat(t.as_str()).concat("_tensor_index")
}

impl WorkloadBuilder {
    /// Writes the loops over the elements of tensors of one shape, each
    /// tensor with its own strides, around what `func` makes of the names
    /// of the indexes of the elements.
    pub fn iterate_zip<F: FnOnce(&[String]) -> String>(
        &mut self,
        shape: &[i64],
        strides: &[&[usize]],
        func: F,
    ) -> (r: String)
        requires
            forall|t: int|
                0 <= t < strides@.len() ==> (#[trigger] strides@[t])@.len() >= shape@.len(),
            forall|names: &[String]|
                texts(names@) == final_names(strides@.len() as int) ==> call_requires(
                    func,
                    (names,),
                ),
        ensures
            *final(self) == *old(self),
            shape@.len() == 0 ==> r@ == joined(zip_lines(shape@, strides@, Seq::empty())),
            shape@.len() > 0 ==> exists|names: &[String], body: String|
                texts(names@) == final_names(strides@.len() as int) && call_ensures(
                    func,
                    (names,),
                    body,
                ) && #[trigger] r@ == joined(zip_lines(shape@, strides@, body@)),
    {
        let mut loops: Vec<String> = Vec::new();
        let mut index: usize = 0;
        while index < shape.len()
            invariant
                index <= shape@.len(),
                forall|t: int|
                    0 <= t < strides@.len() ==> (#[trigger] strides@[t])@.len() >= shape@.len(),
                texts(loops@) == loops_lines(shape@, strides@, index as int),
            decreases shape@.len() - index,
        {
            let ghost before = texts(loops@);
            let it = it_var_name(index);
            let dim = signed_decimal(shape[index]);
            let open = String::from_str("for ").concat(it.as_str()).concat(" in 0..").concat(
                dim.as_str(),
            ).concat("u32 {");
            loops.push(open);
            assert(texts(loops@) =~= before + level_lines(shape@, strides@, index as int, 0));
            let mut tensor: usize = 0;
            while tensor < strides.len()
                invariant
                    tensor <= strides@.len(),
                    index < shape@.len(),
                    it@ == it_var(index as nat),
                    forall|t: int|
                        0 <= t < strides@.len() ==> (#[trigger] strides@[t])@.len()
                            >= shape@.len(),
                    texts(loops@) == before + level_lines(
                        shape@,
                        strides@,
                        index as int,
                        tensor as int,
                    ),
                decreases strides@.len() - tensor,
            {
                let ghost so_far = texts(loops@);
                assert(strides@[tensor as int]@.len() >= shape@.len());
                let stride = decimal(strides[tensor][index] as u64);
                let name = dim_var_name(tensor, index);
                let line = String::from_str("let ").concat(name.as_str()).concat(" = ");
                let line = if index == 0 {
                    line
                } else {
                    let last = dim_var_name(tensor, index - 1);
                    line.concat(last.as_str()).concat(" + ")
                };
                let line = line.concat(it.as_str()).concat(" * ").concat(stride.as_str()).concat(
                    ";",
                );
                assert(line@ =~= stride_line(
                    tensor as nat,
                    index as nat,
                    strides@[tensor as int]@[index as int] as nat,
                ));
                loops.push(line);
                assert(texts(loops@) =~= so_far.push(line@));
                tensor += 1;
            }
            index += 1;
        }
        let ghost opened = texts(loops@);
        let ghost mut inner: Seq<Seq<char>> = Seq::empty();
        let ghost mut witness: Option<(&[String], String)> = None;
        if shape.len() > 0 {
            let mut final_indexes: Vec<String> = Vec::new();
            let mut tensor: usize = 0;
            while tensor < strides.len()
                invariant
                    tensor <= strides@.len(),
                    shape@.len() > 0,
                    texts(loops@) == opened + final_lines(shape@.len(), tensor as int),
                    texts(final_indexes@) == final_names(tensor as int),
                decreases strides@.len() - tensor,
            {
                let ghost so_far = texts(loops@);
                let ghost names = texts(final_indexes@);
                let name = final_var_name(tensor);
                let last = dim_var_name(tensor, shape.len() - 1);
                let line = String::from_str("let ").concat(name.as_str()).concat(" = ").concat(
                    last.as_str(),
                ).concat(";");
                loops.push(line);
                final_indexes.push(name);
                assert(texts(loops@) =~= so_far.push(line@));
                assert(texts(final_indexes@) =~= names.push(name@));
                tensor += 1;
            }
            let ghost so_far = texts(loops@);
            let names = final_indexes.as_slice();
            let body = func(names);
            proof {
                inner = final_lines(shape@.len(), strides@.len() as int).push(body@);
                witness = Some((names, body));
            }
            loops.push(body);
            assert(texts(loops@) =~= so_far.push(body@));
            assert(so_far.push(body@) =~= opened + inner);
        }
        let ghost filled = texts(loops@);
        let mut closed: usize = 0;
        while closed < shape.len()
            invariant
                closed <= shape@.len(),
                texts(loops@) == filled + closing_lines(closed as int),
            decreases shape@.len() - closed,
        {
            let ghost so_far = texts(loops@);
            loops.push(String::from_str("}"));
            assert(texts(loops@) =~= so_far.push("}"@));
            closed += 1;
        }
        let r = join_lines(&loops);
        proof {
            if shape@.len() > 0 {
                let (names, body) = witness->0;
                assert(texts(loops@) =~= zip_lines(shape@, strides@, body@));
            } else {
                assert(texts(loops@) =~= zip_lines(shape@, strides@, Seq::empty()));
            }
        }
        r
    }
}

} // verus!
