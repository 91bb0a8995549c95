# rtsp_factory

Serves the stream of a network camera to any number of RTSP clients. A camera can often send
only one stream of a kind at a time, so there is one camera stream, which is fanned out.

`src/` is the library. It holds the decisions, verified with Verus:

- `table`, `config`: what a camera lists for a stream, and what its media reveals later.
- `media`, `gop`: frames, and the last group of pictures that new clients start with.
- `clients`, `camera`: when the camera stream is opened, what becomes of its media, and when it
  is closed again.
- `feed`: which frames a client is sent, and at what time they play.
- `script`, `pipelines`, `plugins`: the elements of a client's pipeline, as plans.

The theorems about the library as a whole are the public proof functions whose names begin with
`law_`.

`app/` runs it: tokio tasks and channels, and GStreamer pipelines built from the plans. The
program around it gives it the camera and the RTSP server, through the traits `Camera` and
`MediaFactory`.

`tests/` holds examples of all of this with concrete values.
