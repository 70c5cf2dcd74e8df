use vstd::prelude::*;
use vstd::string::*;

use crate::sample_buffer::SampleBuffer;

verus! {

/// `child` appended to the path `base`: an absolute `child` replaces
/// `base`; otherwise a `/` separates them unless `base` is empty or already
/// ends with one.
pub open spec fn joined_path(base: Seq<char>, child: Seq<char>) -> Seq<char> {
    if child.len() > 0 && child[0] == '/' {
        child
    } else if base.len() == 0 || base[base.len() - 1] == '/' {
        base + child
    } else {
        base + seq!['/'] + child
    }
}

/// Appends `child` to the path `base` (see `joined_path`).
pub fn join_path(base: &str, child: &str) -> (r: String)
    ensures
        r@ == joined_path(base@, child@),
{
    let child_len = child.unicode_len();
    if child_len > 0 && child.get_char(0) == '/' {
        return String::from_str(child);
    }
    let base_len = base.unicode_len();
    let mut r = String::from_str(base);
    if base_len == 0 || base.get_char(base_len - 1) == '/' {
        r.append(child);
    } else {
        r.append("/");
        r.append(child);
        proof {
            reveal_strlit("/");
            assert(r@ =~= base@ + seq!['/'] + child@);
        }
    }
    r
}

/// The data directory of the application within the home directory.
pub open spec fn spec_data_path(home: Seq<char>) -> Seq<char> {
    joined_path(
        joined_path(joined_path(home, "Library/Containers"@), "beijaflor-io.Sequencer-Mac"@),
        "Data/Library/Application Support"@,
    )
}

/// The data directory of the application within the home directory `home`.
pub fn data_path(home: &str) -> (r: String)
    ensures
        r@ == spec_data_path(home@),
{
    let containers = join_path(home, "Library/Containers");
    let container = join_path(containers.as_str(), "beijaflor-io.Sequencer-Mac");
    join_path(container.as_str(), "Data/Library/Application Support")
}

/// The directory of the default project.
pub open spec fn spec_default_project_path(data_path: Seq<char>) -> Seq<char> {
    joined_path(data_path, "default_project"@)
}

/// The directory of the default project within the data directory.
pub fn default_project_path(data_path: &str) -> (r: String)
    ensures
        r@ == spec_default_project_path(data_path@),
{
    join_path(data_path, "default_project")
}

/// The directory of the default project and the path of its manifest.
pub fn default_project_manifest_path(data_path: &str) -> (r: (String, String))
    ensures
        r.0@ == spec_default_project_path(data_path@),
        r.1@ == joined_path(spec_default_project_path(data_path@), "project.msgpack"@),
{
    let project_path = default_project_path(data_path);
    let manifest_path = join_path(project_path.as_str(), "project.msgpack");
    (project_path, manifest_path)
}

/// The number of bytes that an audio buffer occupies in memory.
pub fn estimate_file_size(num_channels: usize, num_samples: usize, sample_size: usize) -> (r: u64)
    requires
        num_channels * num_samples <= usize::MAX,
        num_channels * num_samples * sample_size <= usize::MAX,
    ensures
        r == num_channels * num_samples * sample_size,
{
    (num_channels * num_samples * sample_size) as u64
}

/// Identifies a loaded audio clip.
#[derive(Debug, Clone, Copy, PartialEq, Eq, Structural)]
pub struct AudioClipId(pub usize);

/// A loaded audio clip: where it was read from and its samples.
pub struct AudioClipModel<T> {
    id: AudioClipId,
    path: String,
    contents: SampleBuffer<T>,
}

impl<T: Copy> AudioClipModel<T> {
    pub closed spec fn spec_id(self) -> AudioClipId {
        self.id
    }

    pub closed spec fn spec_path(self) -> Seq<char> {
        self.path@
    }

    pub closed spec fn spec_contents(self) -> SampleBuffer<T> {
        self.contents
    }

    /// The clip's id.
    pub fn id(&self) -> (r: AudioClipId)
        ensures
            r == self.spec_id(),
    {
        self.id
    }

    /// The path the clip was read from.
    pub fn path(&self) -> (r: &str)
        ensures
            r@ == self.spec_path(),
    {
        self.path.as_str()
    }

    /// The samples of the clip.
    pub fn contents(&self) -> (r: &SampleBuffer<T>)
        ensures
            *r == self.spec_contents(),
    {
        &self.contents
    }
}

/// The audio clips loaded so far; each gets the next id.
pub struct AudioClipRegistry<T> {
    audio_clips: Vec<AudioClipModel<T>>,
}

impl<T: Copy> AudioClipRegistry<T> {
    /// The clip with each id is at that position.
    pub closed spec fn wf(self) -> bool {
        forall|i: int|
            0 <= i < self.audio_clips@.len() ==> (#[trigger] self.audio_clips@[i]).id.0 == i
    }

    /// The loaded clips, in loading order.
    pub closed spec fn clips(self) -> Seq<AudioClipModel<T>> {
        self.audio_clips@
    }

    /// A registry without clips.
    pub fn new() -> (r: Self)
        ensures
            r.wf(),
            r.clips().len() == 0,
    {
        AudioClipRegistry { audio_clips: Vec::new() }
    }

    /// The number of loaded clips.
    pub fn len(&self) -> (r: usize)
        ensures
            r == self.clips().len(),
    {
        self.audio_clips.len()
    }

    /// Registers a clip read from `path`; its id is the number of clips
    /// loaded before it.
    pub fn register(&mut self, path: String, contents: SampleBuffer<T>) -> (r: AudioClipId)
        requires
            old(self).wf(),
        ensures
            final(self).wf(),
            r.0 == old(self).clips().len(),
            final(self).clips().len() == old(self).clips().len() + 1,
            final(self).clips().drop_last() == old(self).clips(),
            final(self).clips().last().spec_id() == r,
            final(self).clips().last().spec_path() == path@,
            final(self).clips().last().spec_contents() == contents,
    {
        let id = AudioClipId(self.audio_clips.len());
        self.audio_clips.push(AudioClipModel { id, path, contents });
        proof {
            assert(self.audio_clips@.drop_last() =~= old(self).audio_clips@);
        }
        id
    }

    /// The clip with the given id, if it was loaded.
    pub fn get(&self, id: AudioClipId) -> (r: Option<&AudioClipModel<T>>)
        requires
            self.wf(),
        ensures
            r matches Some(c) ==> id.0 < self.clips().len() && *c == self.clips()[id.0 as int]
                && c.spec_id() == id,
            r is None ==> id.0 >= self.clips().len(),
    {
        if id.0 < self.audio_clips.len() {
            Some(&self.audio_clips[id.0])
        } else {
            None
        }
    }
}

/// The number of beats in a bar.
#[derive(Debug, Clone, Copy, PartialEq, Eq, Structural)]
pub struct TimeSignature {
    beats_per_bar: usize,
}

impl TimeSignature {
    pub closed spec fn spec_beats_per_bar(self) -> usize {
        self.beats_per_bar
    }

    /// The number of beats in a bar.
    pub fn beats_per_bar(&self) -> (r: usize)
        ensures
            r == self.spec_beats_per_bar(),
    {
        self.beats_per_bar
    }
}

impl Default for TimeSignature {
    /// Four beats to the bar.
    fn default() -> (r: Self)
        ensures
            r.spec_beats_per_bar() == 4,
    {
        TimeSignature { beats_per_bar: 4 }
    }
}

} // verus!
