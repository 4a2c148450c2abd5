# Neta

A loudness meter and scope: what a mix measures, as a plugin page and as a
standalone instrument.

`src/` is the verified library. It works on integers and on generic values that
stand for samples and readings, so that everything but the arithmetic of floats
and what an atomic variable holds is proved:

- `text`: decimal numbers, white space and UTF-8.
- `settings`: the saved state block, read for the audio thread and for the page,
  and the script that tells the page.
- `editor`: the page, the slots of a picture and the frame that carries it.
- `model`: handing a model file to the page.
- `bridge`: the ring of audio blocks between two threads.
- `meter`: loudness windows, histograms and history, and the needle.
- `scope`: histories, transform order, spectrum bands and oscilloscope trigger.
- `plugin`: what a change of settings resets, what a block is analysed for, and
  the picture that is published.
- `visual`: the plan of a scene, presets, OBJ and GLB files.
- `render`: staged instances and surface recovery.
- `standalone`: clocks, capture, command line and objects of the instrument.

The ring's memory is atomic variables that two threads share. Proved is which
accesses each end makes and in what order, that the two ends of a ring are on one
memory, and that blocks then arrive whole and in order, for every way in which the
accesses of the two can fall between each other, as long as the slots begin free
and a load gives what was stored last. Those last two are not proved: the
specifications of the standard library's atomics say nothing of their values, nor
of the order in which one thread sees what another has stored.

`app/` is the instrument around the library: windows, GPU, audio devices, files
and floating-point arithmetic. `tests/` runs the library.
