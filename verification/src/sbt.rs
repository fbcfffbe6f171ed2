use std::ops::Range;
use vstd::prelude::*;

verus! {

/// `write` with the bytes at `at..at + src.len()` replaced by `src`.
pub open spec fn splice(write: Seq<u8>, at: int, src: Seq<u8>) -> Seq<u8> {
    write.subrange(0, at) + src + write.subrange(at + src.len(), write.len() as int)
}

/// One step of copying: the handler of group `g` goes to `offset`.
/// `None` where an offset computation overflows.
pub open spec fn copy_step(handlers: Seq<u8>, write: Seq<u8>, offset: int, size: int, g: u32) -> Option<(Seq<u8>, int)> {
    let group_offset = size * g;
    if group_offset > usize::MAX || group_offset + size > usize::MAX || offset + size > usize::MAX {
        None
    } else {
        Some((splice(write, offset, handlers.subrange(group_offset, group_offset + size)), offset + size))
    }
}

/// The buffer and offset after copying the handlers of `groups` in order, and
/// whether every step succeeded; copying stops at the first failing step.
pub open spec fn copy_all(handlers: Seq<u8>, write: Seq<u8>, offset: int, size: int, groups: Seq<u32>) -> (Seq<u8>, int, bool)
    decreases groups.len(),
{
    if groups.len() == 0 {
        (write, offset, true)
    } else {
        match copy_step(handlers, write, offset, size, groups[0]) {
            None => (write, offset, false),
            Some((w, o)) => copy_all(handlers, w, o, size, groups.drop_first()),
        }
    }
}

/// Every copy step that is reached stays within both buffers.
pub open spec fn copy_in_bounds(handlers_len: int, write_len: int, offset: int, size: int, groups: Seq<u32>) -> bool
    decreases groups.len(),
{
    if groups.len() == 0 {
        true
    } else {
        let group_offset = size * groups[0];
        if group_offset > usize::MAX || group_offset + size > usize::MAX || offset + size > usize::MAX {
            true
        } else {
            &&& group_offset + size <= handlers_len
            &&& offset + size <= write_len
            &&& copy_in_bounds(handlers_len, write_len, offset + size, size, groups.drop_first())
        }
    }
}

/// What `copy_group_handlers` returns and leaves behind, given the handler
/// size as `usize`.
pub open spec fn copy_result(handlers: Seq<u8>, write: Seq<u8>, offset: int, size: int, groups: Seq<u32>) -> (Seq<u8>, int, Option<Range<u64>>) {
    let (w, o, ok) = copy_all(handlers, write, offset, size, groups);
    (w, o, if ok { Some(Range { start: offset as u64, end: o as u64 }) } else { None })
}

/// Copying keeps the buffer's length; when every step succeeds the offset
/// advances by one handler per group.
pub proof fn law_copy_all_len(handlers: Seq<u8>, write: Seq<u8>, offset: int, size: int, groups: Seq<u32>)
    requires
        copy_in_bounds(handlers.len() as int, write.len() as int, offset, size, groups),
        0 <= offset,
        0 <= size,
    ensures
        copy_all(handlers, write, offset, size, groups).0.len() == write.len(),
        copy_all(handlers, write, offset, size, groups).1 >= offset,
        copy_all(handlers, write, offset, size, groups).2
            ==> copy_all(handlers, write, offset, size, groups).1 == offset + size * groups.len(),
    decreases groups.len(),
{
    if groups.len() > 0 {
        match copy_step(handlers, write, offset, size, groups[0]) {
            None => {},
            Some((w, o)) => {
                law_copy_all_len(handlers, w, o, size, groups.drop_first());
                assert(size * groups.len() == size + size * groups.drop_first().len()) by (nonlinear_arith)
                    requires groups.drop_first().len() + 1 == groups.len();
            },
        }
    }
}

/// Offsets of one copy step: where the group's handler starts and ends, and
/// where the copy ends; `None` where one overflows.
fn step_bounds(size: usize, g: u32, offset: usize) -> (r: Option<(usize, usize, usize)>)
    ensures
        match r {
            None => size * g > usize::MAX || size * g + size > usize::MAX || offset + size > usize::MAX,
            Some((go, ge, we)) => {
                &&& go == size * g
                &&& ge == go + size
                &&& we == offset + size
                &&& ge <= usize::MAX
                &&& we <= usize::MAX
            },
        },
{
    let group_offset: usize = size.checked_mul(g as usize)?;
    let group_end: usize = group_offset.checked_add(size)?;
    let write_end: usize = offset.checked_add(size)?;
    Some((group_offset, group_end, write_end))
}

/// Copies the handler of each group in `groups` (each `group_size` bytes,
/// group `g` at `g * group_size` in `group_handlers`) into `write` at
/// `*write_offset`, advancing the offset past each copy. Returns the range
/// written, or `None` where an offset overflows; copies made before that stay.
pub fn copy_group_handlers(
    group_handlers: &[u8],
    write: &mut [u8],
    groups: &[u32],
    write_offset: &mut usize,
    group_size: u64,
) -> (r: Option<Range<u64>>)
    requires
        group_size <= usize::MAX ==> copy_in_bounds(
            group_handlers@.len() as int,
            old(write)@.len() as int,
            *old(write_offset) as int,
            group_size as int,
            groups@,
        ),
    ensures
        if group_size > usize::MAX {
            &&& r.is_none()
            &&& final(write)@ == old(write)@
            &&& *final(write_offset) == *old(write_offset)
        } else {
            let (w, o, res) = copy_result(group_handlers@, old(write)@, *old(write_offset) as int, group_size as int, groups@);
            &&& final(write)@ == w
            &&& *final(write_offset) == o
            &&& r == res
        },
{
    let result_start: u64 = *write_offset as u64;
    if group_size > usize::MAX as u64 {
        return None;
    }
    let size: usize = group_size as usize;
    let ghost handlers = group_handlers@;
    let ghost start_write = write@;
    let ghost start_offset = *write_offset as int;
    let mut k: usize = 0;
    assert(groups@.subrange(0, groups@.len() as int) =~= groups@);
    while k < groups.len()
        invariant
            k <= groups.len(),
            size == group_size,
            result_start == start_offset,
            start_write == old(write)@,
            start_offset == *old(write_offset),
            handlers == group_handlers@,
            copy_all(handlers, start_write, start_offset, size as int, groups@)
                == copy_all(handlers, write@, *write_offset as int, size as int, groups@.subrange(k as int, groups@.len() as int)),
            copy_in_bounds(handlers.len() as int, write@.len() as int, *write_offset as int, size as int,
                groups@.subrange(k as int, groups@.len() as int)),
            write@.len() == start_write.len(),
        decreases groups.len() - k,
    {
        let g: u32 = groups[k];
        let ghost rest = groups@.subrange(k as int, groups@.len() as int);
        assert(rest[0] == g);
        assert(rest.drop_first() =~= groups@.subrange(k + 1, groups@.len() as int));
        let (group_offset, group_end, write_end) = match step_bounds(size, g, *write_offset) {
            Some(b) => b,
            None => {
                assert(copy_all(handlers, write@, *write_offset as int, size as int, rest)
                    == (write@, *write_offset as int, false));
                return None;
            },
        };
        let ghost before = write@;
        let at: usize = *write_offset;
        let mut j: usize = 0;
        while j < size
            invariant
                j <= size,
                at + size == write_end,
                group_offset + size == group_end,
                group_end <= group_handlers@.len(),
                write_end <= write@.len(),
                write@.len() == before.len(),
                forall|i: int| 0 <= i < at ==> write@[i] == before[i],
                forall|i: int| write_end <= i < before.len() ==> write@[i] == before[i],
                forall|i: int| at + j <= i < write_end ==> write@[i] == before[i],
                forall|i: int| at <= i < at + j ==> #[trigger] write@[i] == group_handlers@[group_offset + (i - at)],
            decreases size - j,
        {
            write[at + j] = group_handlers[group_offset + j];
            j = j + 1;
        }
        assert(write@ =~= splice(before, at as int, group_handlers@.subrange(group_offset as int, group_end as int)));
        *write_offset = write_end;
        k = k + 1;
    }
    assert(groups@.subrange(groups@.len() as int, groups@.len() as int) =~= Seq::<u32>::empty());
    let result_end: u64 = *write_offset as u64;
    Some(result_start..result_end)
}


/// Error of a failed allocation.
#[derive(Clone, Copy, Debug, PartialEq, Eq, Structural)]
pub struct OutOfMemory;

/// Contents of a shader binding table and the regions of each group kind in it.
#[derive(Debug)]
pub struct ShaderBindingTableLayout {
    /// The table's bytes, handlers of the groups copied in order.
    pub bytes: Vec<u8>,
    /// Alignment mask the table's buffer needs.
    pub align: u64,
    /// Size of the table in bytes.
    pub size: u64,
    pub raygen: Option<Range<u64>>,
    pub miss: Option<Range<u64>>,
    pub hit: Option<Range<u64>>,
    pub callable: Option<Range<u64>>,
}

/// The groups of an optional raygen group.
pub open spec fn optional_groups(g: Option<u32>) -> Seq<u32> {
    match g {
        Some(g) => seq![g],
        None => Seq::empty(),
    }
}

/// Number of groups a table holds.
pub open spec fn group_count(raygen: Option<u32>, miss: Seq<u32>, hit: Seq<u32>, callable: Seq<u32>) -> int {
    (optional_groups(raygen).len() + miss.len() + hit.len() + callable.len()) as int
}

/// The four copy stages in order, each from where the previous one ended:
/// the table's bytes, and the range each stage reports.
pub open spec fn table_stages(
    handlers: Seq<u8>,
    size: int,
    raygen: Option<u32>,
    miss: Seq<u32>,
    hit: Seq<u32>,
    callable: Seq<u32>,
) -> (Seq<u8>, Option<Range<u64>>, Option<Range<u64>>, Option<Range<u64>>, Option<Range<u64>>) {
    let total = size * group_count(raygen, miss, hit, callable);
    let zeros = Seq::new(total as nat, |i: int| 0u8);
    let s1 = copy_result(handlers, zeros, 0, size, optional_groups(raygen));
    let s2 = copy_result(handlers, s1.0, s1.1, size, miss);
    let s3 = copy_result(handlers, s2.0, s2.1, size, hit);
    let s4 = copy_result(handlers, s3.0, s3.1, size, callable);
    (s4.0, s1.2, s2.2, s3.2, s4.2)
}

/// Each copy stage that is reached stays within the handlers and the table.
pub open spec fn table_copies_in_bounds(
    handlers: Seq<u8>,
    size: int,
    raygen: Option<u32>,
    miss: Seq<u32>,
    hit: Seq<u32>,
    callable: Seq<u32>,
) -> bool {
    let total = size * group_count(raygen, miss, hit, callable);
    let zeros = Seq::new(total as nat, |i: int| 0u8);
    let s1 = copy_result(handlers, zeros, 0, size, optional_groups(raygen));
    let s2 = copy_result(handlers, s1.0, s1.1, size, miss);
    let s3 = copy_result(handlers, s2.0, s2.1, size, hit);
    &&& copy_in_bounds(handlers.len() as int, total, 0, size, optional_groups(raygen))
    &&& copy_in_bounds(handlers.len() as int, total, s1.1, size, miss)
    &&& copy_in_bounds(handlers.len() as int, total, s2.1, size, hit)
    &&& copy_in_bounds(handlers.len() as int, total, s3.1, size, callable)
}

/// Lays out a shader binding table: the handler of every raygen, miss, hit
/// and callable group in that order, `handle_size` bytes each.
pub fn shader_binding_table_layout(
    group_handlers: &[u8],
    handle_size: u32,
    base_alignment: u32,
    raygen: Option<u32>,
    miss: &[u32],
    hit: &[u32],
    callable: &[u32],
) -> (r: Result<ShaderBindingTableLayout, OutOfMemory>)
    requires
        base_alignment >= 1,
        group_count(raygen, miss@, hit@, callable@) <= usize::MAX,
        group_count(raygen, miss@, hit@, callable@) <= u32::MAX ==> {
            &&& handle_size * group_count(raygen, miss@, hit@, callable@) <= usize::MAX
            &&& table_copies_in_bounds(group_handlers@, handle_size as int, raygen, miss@, hit@, callable@)
        },
    ensures
        match r {
            Err(_) => group_count(raygen, miss@, hit@, callable@) > u32::MAX,
            Ok(layout) => {
                let stages = table_stages(group_handlers@, handle_size as int, raygen, miss@, hit@, callable@);
                &&& group_count(raygen, miss@, hit@, callable@) <= u32::MAX
                &&& layout.size == handle_size * group_count(raygen, miss@, hit@, callable@)
                &&& layout.align == base_alignment - 1
                &&& layout.bytes@ == stages.0
                &&& layout.raygen == stages.1
                &&& layout.miss == stages.2
                &&& layout.hit == stages.3
                &&& layout.callable == stages.4
            },
        },
{
    let group_size: u64 = handle_size as u64;
    let group_align: u64 = (base_alignment - 1) as u64;
    let raygen_count: usize = if raygen.is_some() { 1 } else { 0 };
    let group_count_usize: usize = raygen_count + miss.len() + hit.len() + callable.len();
    if group_count_usize > u32::MAX as usize {
        return Err(OutOfMemory);
    }
    let group_count: u32 = group_count_usize as u32;
    assert(group_size * group_count <= u64::MAX) by (nonlinear_arith)
        requires group_size <= u32::MAX, group_count <= u32::MAX;
    let total_size: u64 = group_size * group_count as u64;
    let total_size_usize: usize = total_size as usize;
    let mut bytes: Vec<u8> = vec![0u8; total_size_usize];
    let ghost zeros = Seq::new(total_size as nat, |i: int| 0u8);
    assert(bytes@ =~= zeros);
    let raygen_groups: Vec<u32> = match raygen {
        Some(g) => vec![g],
        None => Vec::new(),
    };
    assert(raygen_groups@ =~= optional_groups(raygen));
    let mut write_offset: usize = 0;
    let ghost h = group_handlers@;
    let ghost size = group_size as int;
    let ghost s1 = copy_result(h, zeros, 0, size, optional_groups(raygen));
    let ghost s2 = copy_result(h, s1.0, s1.1, size, miss@);
    let ghost s3 = copy_result(h, s2.0, s2.1, size, hit@);
    proof {
        law_copy_all_len(h, zeros, 0, size, optional_groups(raygen));
        law_copy_all_len(h, s1.0, s1.1, size, miss@);
        law_copy_all_len(h, s2.0, s2.1, size, hit@);
    }
    let raygen_handlers = copy_group_handlers(
        group_handlers,
        bytes.as_mut_slice(),
        raygen_groups.as_slice(),
        &mut write_offset,
        group_size,
    );
    let miss_handlers = copy_group_handlers(group_handlers, bytes.as_mut_slice(), miss, &mut write_offset, group_size);
    let hit_handlers = copy_group_handlers(group_handlers, bytes.as_mut_slice(), hit, &mut write_offset, group_size);
    let callable_handlers = copy_group_handlers(
        group_handlers,
        bytes.as_mut_slice(),
        callable,
        &mut write_offset,
        group_size,
    );
    Ok(ShaderBindingTableLayout {
        bytes,
        align: group_align,
        size: total_size,
        raygen: raygen_handlers,
        miss: miss_handlers,
        hit: hit_handlers,
        callable: callable_handlers,
    })
}

/// Where every group's handler is copied, the regions of the four group kinds
/// follow each other without gaps and cover the whole table.
pub proof fn law_table_regions_consecutive(
    handlers: Seq<u8>,
    size: int,
    raygen: Option<u32>,
    miss: Seq<u32>,
    hit: Seq<u32>,
    callable: Seq<u32>,
)
    requires
        0 <= size,
        size * group_count(raygen, miss, hit, callable) <= usize::MAX,
        table_copies_in_bounds(handlers, size, raygen, miss, hit, callable),
    ensures
        ({
            let st = table_stages(handlers, size, raygen, miss, hit, callable);
            (st.1 is Some && st.2 is Some && st.3 is Some && st.4 is Some) ==> {
                &&& st.1.unwrap().start == 0
                &&& st.1.unwrap().end == st.2.unwrap().start
                &&& st.2.unwrap().end == st.3.unwrap().start
                &&& st.3.unwrap().end == st.4.unwrap().start
                &&& st.4.unwrap().end == size * group_count(raygen, miss, hit, callable)
            }
        }),
{
    let total = size * group_count(raygen, miss, hit, callable);
    let zeros = Seq::new(total as nat, |i: int| 0u8);
    let rg = optional_groups(raygen);
    let s1 = copy_result(handlers, zeros, 0, size, rg);
    let s2 = copy_result(handlers, s1.0, s1.1, size, miss);
    let s3 = copy_result(handlers, s2.0, s2.1, size, hit);
    law_copy_all_len(handlers, zeros, 0, size, rg);
    law_copy_all_len(handlers, s1.0, s1.1, size, miss);
    law_copy_all_len(handlers, s2.0, s2.1, size, hit);
    law_copy_all_len(handlers, s3.0, s3.1, size, callable);
    let c = group_count(raygen, miss, hit, callable);
    assert(size * c == size * rg.len() + size * miss.len() + size * hit.len() + size * callable.len()) by (nonlinear_arith)
        requires c == rg.len() + miss.len() + hit.len() + callable.len();
    assert(size * c <= u64::MAX);
    assert(size * rg.len() <= size * c) by (nonlinear_arith)
        requires 0 <= size, rg.len() <= c;
}

} // verus!
