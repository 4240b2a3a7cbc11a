//! A playlist-based audio player core: windowed decode caches for audio
//! sources, a playback state machine, and the real-time render loop that
//! bridges the two.

mod audio_file;
mod audio_source;
mod player_state;
mod render;
mod scrobbler;
mod storage;
mod wav;
mod wav_header;
mod web_framework;

pub use audio_file::AudioFileSource;
pub use audio_file::CACHE_BOUND;
pub use audio_source::AudioBuffer;
pub use audio_source::AudioMetadata;
pub use audio_source::first_covering;
pub use audio_source::lemma_first_covering;
pub use player_state::NowPlaying;
pub use player_state::PlaybackState;
pub use player_state::PlayerModel;
pub use player_state::PlayerState;
pub use player_state::count_true;
pub use player_state::filter_by_mask;
pub use player_state::lemma_filter_by_mask_len;
pub use player_state::lemma_filter_by_mask_push;
pub use player_state::lemma_filter_by_mask_skips_false;
pub use player_state::lemma_next_consumes_last;
pub use player_state::lemma_next_cycles;
pub use player_state::lemma_next_iter_snoc;
pub use player_state::lemma_next_iter_wf;
pub use player_state::lemma_next_spec_wf;
pub use player_state::lemma_skip_back_keeps_playlist;
pub use player_state::lemma_toggle_involution;
pub use render::RenderStatus;
pub use render::render_period;
pub use render::source_sample;
pub use scrobbler::GetLovedTracksResult;
pub use scrobbler::LastFMArtist;
pub use scrobbler::LastFMDate;
pub use scrobbler::LastFMTrack;
pub use scrobbler::LastFMTracks;
pub use scrobbler::NOMINAL_SAMPLE_RATE;
pub use scrobbler::NowPlayingActions;
pub use scrobbler::SCROBBLE_BATCH;
pub use scrobbler::Scrobbler;
pub use scrobbler::bytes_le;
pub use scrobbler::cat_pairs;
pub use scrobbler::insert_pair;
pub use scrobbler::key_bytes;
pub use scrobbler::make_signature;
pub use scrobbler::md5_hex_of;
pub use scrobbler::pair_bytes;
pub use scrobbler::same_session;
pub use scrobbler::should_scrobble;
pub use scrobbler::sig_input;
pub use scrobbler::sort_pairs;
pub use storage::PjpConfig;
pub use wav::WAV_BLOCK_FRAMES;
pub use wav::WavSource;
pub use wav::block_byte_end;
pub use wav::block_byte_start;
pub use wav::data_supported;
pub use wav::header_supported;
pub use wav::is_wav_block;
pub use wav::lemma_get_buffer_idempotent;
pub use wav::lemma_wav_block_unique;
pub use wav::quantize;
pub use wav::wav_data_start;
pub use wav::wav_result;
pub use wav::wav_sample_word;
pub use wav::wav_step;
pub use wav_header::WavHeader;
pub use wav_header::chunk_match;
pub use wav_header::data_chunk_pos;
pub use wav_header::data_marker;
pub use wav_header::find_chunk;
pub use wav_header::find_chunk_spec;
pub use wav_header::header_bytes_wf;
pub use wav_header::header_parses_to;
pub use wav_header::le_u16_at;
pub use wav_header::le_u32_at;
pub use wav_header::lemma_find_chunk_spec_some;
pub use web_framework::Command;
pub use web_framework::HttpMethod;
pub use web_framework::HttpRequest;
pub use web_framework::HttpResponseCode;
pub use web_framework::all_digits;
pub use web_framework::cat_header_views;
pub use web_framework::dec_str;
pub use web_framework::dec_val;
pub use web_framework::decide_add;
pub use web_framework::decide_skip_to;
pub use web_framework::digit_char;
pub use web_framework::find_char_spec;
pub use web_framework::find_sep_spec;
pub use web_framework::format_response;
pub use web_framework::format_sse;
pub use web_framework::sse_text;
pub use web_framework::header_value;
pub use web_framework::header_views;
pub use web_framework::is_digit;
pub use web_framework::json_index_of;
pub use web_framework::json_string_array_of;
pub use web_framework::lines_parse_ok;
pub use web_framework::lower_of;
pub use web_framework::method_of;
pub use web_framework::parse_header_line_spec;
pub use web_framework::parse_request_line_spec;
pub use web_framework::parse_usize;
pub use web_framework::response_text;
pub use web_framework::route;
pub use web_framework::route_spec;
pub use web_framework::status_text;
pub use web_framework::usize_to_string;
