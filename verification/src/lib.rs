//! Transforms the tags of an OpenStreetMap way into a description of the lanes
//! along that road, and lanes back into tags.

pub mod text;
pub mod tags;
pub mod highway;
pub mod schemes;
pub mod access_by_lane;
pub mod infer;
pub mod metric;
pub mod road;
pub mod locale;
pub mod builder;
pub mod cycleway;
pub mod msg;
pub mod counts;
pub mod bus;
pub mod modes;
pub mod separator;
pub mod ltr;
pub mod transform;
pub mod lanes_to_tags;
pub mod editor;
pub mod test_case;
pub mod overpass;
