//! The adapters through which a plugin hands over its state to be kept, and
//! gets it back.

use vstd::prelude::*;

verus! {

/// The views of a sequence of strings, in the same order.
pub open spec fn strings_view(strings: Seq<String>) -> Seq<Seq<char>> {
    strings.map_values(|s: String| s@)
}

/// Collects what a plugin writes when it is asked to save its state.
pub struct SaveState {
    data: Vec<String>,
}

impl View for SaveState {
    type V = Seq<Seq<char>>;

    closed spec fn view(&self) -> Seq<Seq<char>> {
        strings_view(self.data@)
    }
}

impl SaveState {
    /// Adds one string to the saved state.
    pub fn write_string(&mut self, value: &str)
        ensures
            final(self)@ == old(self)@.push(value@),
    {
        self.data.push(value.to_owned());
    }
}

/// Hands a saved state back to a plugin, one string at a time.
pub struct LoadState {
    data: Vec<String>,
    next: usize,
}

/// What a [`LoadState`] stands for in contracts: the saved strings and how
/// many of them have been read.
pub struct LoadStateView {
    pub data: Seq<Seq<char>>,
    pub next: nat,
}

impl View for LoadState {
    type V = LoadStateView;

    closed spec fn view(&self) -> LoadStateView {
        LoadStateView { data: strings_view(self.data@), next: self.next as nat }
    }
}

impl LoadState {
    /// The next string of the saved state, or `None` after the last one.
    pub fn read_string(&mut self) -> (value: Option<String>)
        ensures
            final(self)@.data == old(self)@.data,
            old(self)@.next < old(self)@.data.len() ==> value.is_some() && value.unwrap()@
                == old(self)@.data[old(self)@.next as int],
            old(self)@.next < old(self)@.data.len() ==> final(self)@.next == old(self)@.next + 1,
            old(self)@.next >= old(self)@.data.len() ==> value.is_none(),
            old(self)@.next >= old(self)@.data.len() ==> final(self)@.next == old(self)@.next,
    {
        if self.next < self.data.len() {
            let value = self.data[self.next].clone();
            self.next += 1;
            Some(value)
        } else {
            None
        }
    }
}

/// A writer adapter that has collected nothing yet.
pub fn get_writer_funcs() -> (writer: SaveState)
    ensures
        writer@ == Seq::<Seq<char>>::empty(),
{
    SaveState { data: Vec::new() }
}

/// Takes out of `writer` what was written to it, in the order of writing, and
/// leaves it empty.
pub fn get_data(writer: &mut SaveState) -> (data: Vec<String>)
    ensures
        strings_view(data@) == old(writer)@,
        final(writer)@ == Seq::<Seq<char>>::empty(),
{
    let mut data: Vec<String> = Vec::new();
    std::mem::swap(&mut writer.data, &mut data);
    data
}

/// A reader adapter over a copy of `data`, placed before its first string.
pub fn get_loader_funcs(data: &Vec<String>) -> (loader: LoadState)
    ensures
        loader@ == (LoadStateView { data: strings_view(data@), next: 0 }),
{
    let mut copy: Vec<String> = Vec::new();
    let n = data.len();
    let mut i: usize = 0;
    while i < n
        invariant
            n == data@.len(),
            i <= n,
            strings_view(copy@) == strings_view(data@).subrange(0, i as int),
        decreases n - i,
    {
        let s = data[i].clone();
        proof {
            assert(strings_view(data@).subrange(0, i + 1) == strings_view(data@).subrange(
                0,
                i as int,
            ).push(data@[i as int]@));
        }
        copy.push(s);
        i += 1;
    }
    proof {
        assert(strings_view(data@).subrange(0, n as int) == strings_view(data@));
    }
    LoadState { data: copy, next: 0 }
}

} // verus!
