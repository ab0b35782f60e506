use vstd::prelude::*;

verus! {

/// Keeps only the newest `max` samples of the analysis queue.
pub fn keep_latest<T: Copy>(buf: &mut Vec<T>, max: usize)
    ensures
        old(buf)@.len() > max ==> final(buf)@ == old(buf)@.subrange(
            old(buf)@.len() - max,
            old(buf)@.len() as int,
        ),
        old(buf)@.len() <= max ==> final(buf)@ == old(buf)@,
{
    let n = buf.len();
    if n > max {
        drop_front(buf, n - max);
    }
}

/// Removes the `count` oldest samples of the analysis queue.
pub fn drop_front<T: Copy>(buf: &mut Vec<T>, count: usize)
    requires
        count <= old(buf)@.len(),
    ensures
        final(buf)@ == old(buf)@.subrange(count as int, old(buf)@.len() as int),
{
    let n = buf.len();
    let mut rest: Vec<T> = Vec::new();
    let mut i: usize = count;
    while i < n
        invariant
            count <= i <= n,
            n == buf@.len(),
            rest@ == buf@.subrange(count as int, i as int),
        decreases n - i,
    {
        rest.push(buf[i]);
        i = i + 1;
        assert(rest@ =~= buf@.subrange(count as int, i as int));
    }
    *buf = rest;
}

/// The oldest `count` samples, the frame handed to the analyser next.
pub fn front_frame<T: Copy>(buf: &Vec<T>, count: usize) -> (frame: Vec<T>)
    requires
        count <= buf@.len(),
    ensures
        frame@ == buf@.subrange(0, count as int),
{
    let mut frame: Vec<T> = Vec::new();
    let mut i: usize = 0;
    while i < count
        invariant
            i <= count <= buf@.len(),
            frame@ == buf@.subrange(0, i as int),
        decreases count - i,
    {
        frame.push(buf[i]);
        i = i + 1;
        assert(frame@ =~= buf@.subrange(0, i as int));
    }
    frame
}

} // verus!
