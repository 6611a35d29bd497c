//! A video that shows a team at work.

use vstd::prelude::*;

verus! {

/// A video that shows a team at work.
#[derive(Debug, Hash)]
pub struct Video {
    /// Where the video comes from, most often the name of its maker.
    pub source: String,
    /// The address of the video.
    pub url: String,
}

/// The mathematical content of a [`Video`].
pub struct VideoView {
    pub source: Seq<char>,
    pub url: Seq<char>,
}

impl View for Video {
    type V = VideoView;

    open spec fn view(&self) -> VideoView {
        VideoView { source: self.source@, url: self.url@ }
    }
}

impl DeepView for Video {
    type V = VideoView;

    open spec fn deep_view(&self) -> VideoView {
        self@
    }
}

impl Clone for Video {
    fn clone(&self) -> (r: Self)
        ensures
            r@ == self@,
    {
        Video { source: self.source.clone(), url: self.url.clone() }
    }
}

} // verus!
