//! How a chain of shader passes alternates between two textures.
use vstd::prelude::*;

verus! {

/// Where a shader pass reads its picture from.
#[derive(Debug, Clone, Copy, PartialEq, Eq, Structural)]
pub enum ReadSource {
    Intermediate,
    PingPong,
}

/// Where a shader pass writes its picture to.
#[derive(Debug, Clone, Copy, PartialEq, Eq, Structural)]
pub enum WriteTarget {
    PingPong,
    Intermediate,
    Surface,
}

/// Passes read the intermediate texture and the ping-pong texture in turn, the
/// intermediate texture first.
pub open spec fn read_source(index: int) -> ReadSource {
    if index % 2 == 0 {
        ReadSource::Intermediate
    } else {
        ReadSource::PingPong
    }
}

/// The last of `count` passes writes to the surface, any other pass to the texture
/// that it does not read.
pub open spec fn write_target(index: int, count: int) -> WriteTarget {
    if index == count - 1 {
        WriteTarget::Surface
    } else if read_source(index) == ReadSource::Intermediate {
        WriteTarget::PingPong
    } else {
        WriteTarget::Intermediate
    }
}

/// What is written to `target` is what is read from `source`.
pub open spec fn hands_over(target: WriteTarget, source: ReadSource) -> bool {
    match target {
        WriteTarget::PingPong => source == ReadSource::PingPong,
        WriteTarget::Intermediate => source == ReadSource::Intermediate,
        WriteTarget::Surface => false,
    }
}

/// Where pass `index` of a chain of `count` passes reads from and writes to.
pub fn ping_pong_targets(index: usize, count: usize) -> (targets: (ReadSource, WriteTarget))
    requires
        count > 0,
    ensures
        targets.0 == read_source(index as int),
        targets.1 == write_target(index as int, count as int),
{
    let is_last = index == count - 1;
    let read = if index % 2 == 0 {
        ReadSource::Intermediate
    } else {
        ReadSource::PingPong
    };
    let write = if is_last {
        WriteTarget::Surface
    } else if index % 2 == 0 {
        WriteTarget::PingPong
    } else {
        WriteTarget::Intermediate
    };
    (read, write)
}

/// The first pass reads the intermediate texture, where the picture was rendered.
pub proof fn law_first_pass_reads_intermediate()
    ensures
        read_source(0) == ReadSource::Intermediate,
{
}

/// Every pass but the first reads what the pass before it wrote.
pub proof fn law_passes_form_a_chain(index: int, count: int)
    requires
        0 <= index < count - 1,
    ensures
        hands_over(write_target(index, count), read_source(index + 1)),
{
}

/// The last pass writes to the surface, and no other pass does.
pub proof fn law_only_last_pass_reaches_surface(index: int, count: int)
    ensures
        write_target(index, count) == WriteTarget::Surface <==> index == count - 1,
{
}

/// No pass reads the texture that it writes.
pub proof fn law_no_pass_reads_its_target(index: int, count: int)
    requires
        0 <= index < count,
    ensures
        !hands_over(write_target(index, count), read_source(index)),
{
}

/// Two passes in a row read different textures, and the pass after them reads what the
/// first of them read, also past the end of a chain.
pub proof fn law_passes_alternate(index: int)
    ensures
        read_source(index) != read_source(index + 1),
        read_source(index) == read_source(index + 2),
{
}

/// Any pass but the last writes the one of the two textures that it does not read,
/// whatever the length of the chain, and also past its end.
pub proof fn law_other_passes_write_what_they_do_not_read(index: int, count: int)
    requires
        index != count - 1,
    ensures
        write_target(index, count) != WriteTarget::Surface,
        read_source(index) == ReadSource::Intermediate <==> write_target(index, count)
            == WriteTarget::PingPong,
        read_source(index) == ReadSource::PingPong <==> write_target(index, count)
            == WriteTarget::Intermediate,
{
}

/// A chain needs a ping-pong texture if and only if it has more than one pass.
pub proof fn law_ping_pong_needed_from_two_passes(count: int)
    ensures
        count >= 2 <==> exists|index: int|
            0 <= index < count && {
                ||| read_source(index) == ReadSource::PingPong
                ||| #[trigger] write_target(index, count) == WriteTarget::PingPong
            },
{
    if count >= 2 {
        assert(write_target(0, count) == WriteTarget::PingPong);
    }
}

} // verus!
