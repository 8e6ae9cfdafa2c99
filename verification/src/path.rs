//! The geometry of the path stage: an outline in the usual path
//! mini-language of moves, lines, cubic curves and closes, either the one
//! built in or one that the caller supplies as text.

use vstd::prelude::*;

verus! {

/// The built-in outline.
pub const EMBEDDED_PATH: &'static str = "\n\
    M437.02,74.981c48.352,48.352,74.98,112.64,74.98,181.02s-26.629,132.667-74.98,181.019C388.667,485.371,324.38,512,256,512\n\
    s-132.667-26.629-181.02-74.98C26.629,388.668,0,324.381,0,256.001s26.627-132.668,74.98-181.02S187.62,0,256,0\n\
    S388.667,26.629,437.02,74.981z M414.392,414.393c31.529-31.529,52.493-70.804,61.137-113.531\n\
    c-6.737,9.918-13.182,13.598-17.172-8.603c-4.11-36.195-37.354-13.073-58.259-25.93c-22.002,14.829-71.453-28.831-63.049,20.412\n\
    c12.967,22.211,70.004-29.726,41.574,17.271c-18.137,32.809-66.321,105.466-60.053,143.129c0.791,54.872-56.067,11.442-75.657-6.76\n\
    c-13.178-36.46-4.491-100.188-38.949-118.043c-37.401-1.624-69.502-5.023-83.997-46.835c-8.723-29.914,9.282-74.447,41.339-81.322\n\
    c46.925-29.483,63.687,34.527,107.695,35.717c13.664-14.297,50.908-18.843,53.996-34.875c-28.875-5.095,36.634-24.279-2.764-35.191\n\
    c-21.735,2.556-35.739,22.537-24.185,39.479c-42.119,9.821-43.468-60.952-83.955-38.629c-1.029,35.295-66.111,11.443-22.518,4.286\n\
    c14.978-6.544-24.43-25.508-3.14-22.062c10.458-0.568,45.666-12.906,36.138-21.201c19.605-12.17,36.08,29.145,55.269-0.941\n\
    c13.854-23.133-5.81-27.404-23.175-15.678c-9.79-10.962,17.285-34.638,41.166-44.869c7.959-3.41,15.561-5.268,21.373-4.742\n\
    c12.029,13.896,34.275,16.303,35.439-1.671C322.855,39.537,290.008,32,256,32c-48.811,0-95.235,15.512-133.654,44.195\n\
    c10.325,4.73,16.186,10.619,6.239,18.148c-7.728,23.027-39.085,53.938-66.612,49.562c-14.293,24.648-23.706,51.803-27.73,80.264\n\
    c23.056,7.628,28.372,22.725,23.418,27.775c-11.748,10.244-18.968,24.765-22.688,40.662c7.505,45.918,29.086,88.237,62.635,121.787\n\
    C139.916,456.7,196.167,480,256,480C315.832,480,372.084,456.7,414.392,414.393z\n    ";

/// Where the outline's definition comes from.
#[derive(Clone, Debug, PartialEq, Eq)]
pub enum PathSource {
    /// The built-in outline.
    Embedded,
    /// A definition read by the caller, as text.
    Supplied(String),
}

impl PathSource {
    /// The definition that is handed to the path parser.
    pub open spec fn definition(&self) -> Seq<char> {
        match self {
            PathSource::Embedded => EMBEDDED_PATH@,
            PathSource::Supplied(text) => text@,
        }
    }

    /// Gives the definition to parse.
    pub fn text(&self) -> (text: &str)
        ensures
            text@ == self.definition(),
    {
        match self {
            PathSource::Embedded => EMBEDDED_PATH,
            PathSource::Supplied(text) => text.as_str(),
        }
    }
}

/// A supplied definition with the characters of the built-in one is the
/// same input to the path parser as the built-in one.
pub proof fn lemma_supplied_copy_is_embedded(text: String)
    requires
        text@ == EMBEDDED_PATH@,
    ensures
        PathSource::Supplied(text).definition() == PathSource::Embedded.definition(),
{
}

} // verus!
